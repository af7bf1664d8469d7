# coordinator

The decision logic of a GPU job coordinator, written in Verus and proved
against its contracts.

- `src/` is the verified library. The stores (jobs, leases, Agent inventory,
  terminal attempt reports, checkpoint manifests) are in-memory models with a
  view over `Map`s and `Seq`s, a well-formedness predicate that every
  operation keeps, and row encodings that round-trip. The session and serving
  logic (`session`, `serve`, `failover`, `grant_from_stored`) is written as
  functions from state and event to next state and action.
  Public proof functions named `law_*` state the properties that hold across
  operations.
- `tests/` runs the library on concrete values.
- `app/` is the unverified shell: argument handling, the wire format and
  signing, and the network loop that feeds events to the library and
  performs the actions it returns. It keeps the lease and Job stores in
  SQLite through `rusqlite`: the lease store is read afresh at the start of
  each session and the rows a step changed are written back after it. This
  is not one transaction per decision, so a write by another process during
  a session is not seen until the next one, and a failed write leaves memory
  ahead of disk; the coordinator stops on such a failure. The sequential lane with a lease store is served; the
  multi-agent and stored-reservation lanes, attempt reports, checkpoint
  manifests, failover, operator release and owner preemption have their
  decisions in `src/` but no driver here.
