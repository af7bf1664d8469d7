//! The checks before a signed execution Grant is built from a stored
//! reservation. No single row is trusted alone: the Job must be STAGING, the
//! attempt and the lease must name the same job, attempt, lease and fence,
//! the lease holder's reservation must be this attempt's, the lease must be
//! neither revoked nor expired at issue time, and the Grant may not outlive
//! the lease or the manifest it carries.
use vstd::prelude::*;
use vstd::string::StringSliceAdditionalSpecFns;

use crate::job_store::{read_job, CoordinatorJobStore, JobState, JobStoreView};
use crate::lease_store::{CoordinatorLeaseStore, LeaseMap, StoredLease};
use crate::serve::{unsigned_lease_from_stored, LeaseFields};
use crate::session::u32_from_stored;
use crate::text::{copy_string, push_decimal, push_str, str_eq};

verus! {

/// What the caller decides. Times are given, never read from a clock, so the
/// same inputs give the same Grant.
#[derive(Debug, Clone, PartialEq, Eq)]
pub struct StoredGrantRequest {
    pub job_id: String,
    pub attempt_id: String,
    pub lease_id: String,
    pub grant_id: String,
    pub issued_at_unix_ms: u64,
    pub expires_at_unix_ms: u64,
    /// The nonce is a transport contract, not a stored fact: the caller
    /// gives it (derived from the connection attempt on the wire, or from
    /// the Grant identity for a file).
    pub nonce: Vec<u8>,
}

/// Why a Grant was not built: a store that could not be read (the caller
/// fails closed) or a request that does not match the stored facts.
#[derive(Debug, Clone, PartialEq, Eq)]
pub enum StoredGrantError {
    Storage(String),
    Refused(String),
}

impl StoredGrantError {
    /// The message, whichever kind.
    pub fn message(&self) -> (r: String)
        ensures
            r@ == match self {
                StoredGrantError::Storage(m) => m@,
                StoredGrantError::Refused(m) => m@,
            },
    {
        match self {
            StoredGrantError::Storage(m) => crate::text::copy_string(m),
            StoredGrantError::Refused(m) => crate::text::copy_string(m),
        }
    }
}

/// The stored attempt a Grant is built for.
#[derive(Debug, Clone, PartialEq, Eq)]
pub struct GrantAttempt {
    pub attempt_id: String,
    pub job_id: String,
    pub lease_id: String,
    pub fence_epoch: u64,
}

/// A node's reservation, as the Grant check reads it.
#[derive(Debug, Clone, PartialEq, Eq)]
pub struct HeldReservation {
    pub node_id: String,
    pub job_id: String,
    pub attempt_id: String,
}

/// The kind of answer a Grant check gives.
pub enum GrantVerdict {
    Storage,
    Refused,
    Ready(StoredLease),
}

/// The reservation held on `node`, if any (the first listed).
pub open spec fn reservation_of(rs: Seq<HeldReservation>, node: Seq<char>) -> Option<HeldReservation> {
    if exists|i: int| 0 <= i < rs.len() && (#[trigger] rs[i]).node_id@ == node {
        let i = choose|i: int|
            0 <= i < rs.len() && (#[trigger] rs[i]).node_id@ == node && forall|k: int|
                0 <= k < i ==> (#[trigger] rs[k]).node_id@ != node;
        Some(rs[i])
    } else {
        None
    }
}

/// The verdict of the stored-fact checks, in the order they run.
pub open spec fn grant_verdict(
    jobs: JobStoreView,
    attempt: Option<GrantAttempt>,
    leases: LeaseMap,
    reservations: Seq<HeldReservation>,
    req: StoredGrantRequest,
) -> GrantVerdict {
    if req.issued_at_unix_ms >= req.expires_at_unix_ms {
        GrantVerdict::Refused
    } else {
        match read_job(jobs.jobs, req.job_id@) {
            Err(_) => GrantVerdict::Storage,
            Ok(None) => GrantVerdict::Refused,
            Ok(Some(j)) => if j.state != JobState::Staging || attempt is None || attempt->0.attempt_id@
                != req.attempt_id@ || !leases.contains_key(req.lease_id@) {
                GrantVerdict::Refused
            } else {
                let a = attempt->0;
                let l = leases[req.lease_id@];
                let res = reservation_of(reservations, l.holder_node_id@);
                if a.job_id@ != l.job_id@ || a.attempt_id@ != l.attempt_id@ || a.lease_id@ != l.lease_id@
                    || a.fence_epoch != l.fence_epoch || a.job_id@ != req.job_id@ || res is None
                    || res->0.job_id@ != req.job_id@ || res->0.attempt_id@ != req.attempt_id@
                    || l.revoked_at_unix_ms is Some || l.expires_at_unix_ms <= req.issued_at_unix_ms
                    || req.expires_at_unix_ms > l.expires_at_unix_ms {
                    GrantVerdict::Refused
                } else {
                    GrantVerdict::Ready(l)
                }
            },
        }
    }
}

/// A Grant is built from stored facts only for a readable Job that is
/// STAGING, with the stored attempt the request names, belonging to that
/// Job, on the stored lease the request names at the same fencing epoch,
/// whose holder's reservation is for the request's Job and attempt, and
/// only while that lease is unrevoked and outlives both the issue time and
/// the Grant. The lease it carries is the stored one.
pub proof fn law_grant_only_for_a_staging_job(
    jobs: JobStoreView,
    attempt: Option<GrantAttempt>,
    leases: LeaseMap,
    reservations: Seq<HeldReservation>,
    req: StoredGrantRequest,
)
    requires
        grant_verdict(jobs, attempt, leases, reservations, req) is Ready,
    ensures
        ({
            let l = grant_verdict(jobs, attempt, leases, reservations, req)->Ready_0;
            &&& jobs.jobs.contains_key(req.job_id@)
            &&& jobs.jobs[req.job_id@].state == JobState::Staging
            &&& attempt matches Some(a) && a.attempt_id@ == req.attempt_id@ && a.job_id@ == req.job_id@
                && a.fence_epoch == l.fence_epoch && a.lease_id@ == l.lease_id@
            &&& leases.contains_key(req.lease_id@) && l == leases[req.lease_id@]
            &&& l.job_id@ == req.job_id@ && l.attempt_id@ == req.attempt_id@
            &&& reservation_of(reservations, l.holder_node_id@) matches Some(res) && res.job_id@ == req.job_id@
                && res.attempt_id@ == req.attempt_id@
            &&& l.revoked_at_unix_ms is None
            &&& req.issued_at_unix_ms < req.expires_at_unix_ms <= l.expires_at_unix_ms
            &&& l.expires_at_unix_ms > req.issued_at_unix_ms
        }),
{
}

fn refused(reason: &str) -> (e: StoredGrantError)
    ensures
        e matches StoredGrantError::Refused(m) && m@ == "GRANT_REFUSED: "@ + reason@,
{
    let mut m = String::from_str("GRANT_REFUSED: ");
    push_str(&mut m, reason);
    StoredGrantError::Refused(m)
}

fn find_reservation(rs: &Vec<HeldReservation>, node: &str) -> (r: Option<usize>)
    ensures
        match reservation_of(rs@, node@) {
            None => r is None,
            Some(x) => r matches Some(i) && i < rs@.len() && rs@[i as int] == x,
        },
{
    let mut i: usize = 0;
    while i < rs.len()
        invariant
            i <= rs@.len(),
            forall|k: int| 0 <= k < i ==> (#[trigger] rs@[k]).node_id@ != node@,
        decreases rs@.len() - i,
    {
        if str_eq(rs[i].node_id.as_str(), node) {
            proof {
                let w = choose|w: int|
                    0 <= w < rs@.len() && (#[trigger] rs@[w]).node_id@ == node@ && forall|k: int|
                        0 <= k < w ==> (#[trigger] rs@[k]).node_id@ != node@;
                assert(0 <= i < rs@.len() && rs@[i as int].node_id@ == node@ && forall|k: int|
                    0 <= k < i ==> (#[trigger] rs@[k]).node_id@ != node@);
                if w < i {
                    assert(rs@[w].node_id@ != node@);
                } else if w > i {
                    assert(rs@[i as int].node_id@ != node@);
                }
            }
            return Some(i);
        }
        i = i + 1;
    }
    None
}

/// Checks the stored facts before a Grant is built (see `grant_verdict`)
/// and returns the stored lease the Grant will carry. `attempt` is the
/// stored attempt looked up by the request's attempt id (`None` when there
/// is none); an attempt with another id is refused as not found. A Job that cannot be
/// read is a storage failure; every mismatch is a refusal (with
/// `GRANT_REFUSED:` once the request's own times are consistent).
pub fn check_stored_grant(
    jobs: &CoordinatorJobStore,
    attempt: Option<&GrantAttempt>,
    leases: &CoordinatorLeaseStore,
    reservations: &Vec<HeldReservation>,
    request: &StoredGrantRequest,
) -> (r: Result<StoredLease, StoredGrantError>)
    requires
        jobs.wf(),
        leases.wf(),
    ensures
        match grant_verdict(
            jobs@,
            match attempt {
                Some(a) => Some(*a),
                None => None,
            },
            leases@,
            reservations@,
            *request,
        ) {
            GrantVerdict::Storage => r matches Err(StoredGrantError::Storage(_)),
            GrantVerdict::Refused => r matches Err(StoredGrantError::Refused(_)),
            GrantVerdict::Ready(l) => r == Ok::<StoredLease, StoredGrantError>(l),
        },
{
    if request.issued_at_unix_ms >= request.expires_at_unix_ms {
        let mut m = String::from_str("the Grant issue time (");
        push_decimal(&mut m, request.issued_at_unix_ms);
        push_str(&mut m, ") is not before its expiry (");
        push_decimal(&mut m, request.expires_at_unix_ms);
        push_str(&mut m, ")");
        return Err(StoredGrantError::Refused(m));
    }
    let job = match jobs.get(request.job_id.as_str()) {
        Err(_) => {
            return Err(StoredGrantError::Storage(String::from_str("the job could not be read")));
        },
        Ok(None) => {
            return Err(refused("the job is unknown"));
        },
        Ok(Some(j)) => j,
    };
    if job.state != JobState::Staging {
        return Err(refused("the job is not STAGING; no Grant is built without a reservation"));
    }
    let a = match attempt {
        None => {
            return Err(refused("the attempt is not in the store"));
        },
        Some(a) => a,
    };
    if !str_eq(a.attempt_id.as_str(), request.attempt_id.as_str()) {
        return Err(refused("the attempt given is not the one the request names"));
    }
    let lease = match leases.get(request.lease_id.as_str()) {
        Ok(Some(l)) => l,
        _ => {
            return Err(refused("the lease is not in the store"));
        },
    };
    if !str_eq(a.job_id.as_str(), lease.job_id.as_str()) || !str_eq(a.attempt_id.as_str(), lease.attempt_id.as_str())
        || !str_eq(a.lease_id.as_str(), lease.lease_id.as_str()) {
        return Err(refused("the attempt and the lease do not point at the same reservation"));
    }
    if a.fence_epoch != lease.fence_epoch {
        return Err(refused("the attempt and the lease have different fence epochs"));
    }
    if !str_eq(a.job_id.as_str(), request.job_id.as_str()) {
        return Err(refused("the attempt belongs to another job"));
    }
    let i = match find_reservation(reservations, lease.holder_node_id.as_str()) {
        None => {
            return Err(refused("the lease holder has no reservation"));
        },
        Some(i) => i,
    };
    let res = &reservations[i];
    if !str_eq(res.job_id.as_str(), request.job_id.as_str()) || !str_eq(
        res.attempt_id.as_str(),
        request.attempt_id.as_str(),
    ) {
        return Err(refused("the holder's reservation belongs to another attempt"));
    }
    if lease.revoked_at_unix_ms.is_some() {
        return Err(refused("the lease was revoked"));
    }
    if lease.expires_at_unix_ms <= request.issued_at_unix_ms {
        return Err(refused("the lease has expired at the issue time"));
    }
    if request.expires_at_unix_ms > lease.expires_at_unix_ms {
        return Err(refused("the Grant would expire after the lease"));
    }
    Ok(lease)
}

/// The Grant may not outlive the manifest it carries: the agent checks the
/// manifest at the time it receives the Grant.
pub fn check_manifest_lifetime(request: &StoredGrantRequest, manifest_expires_at_unix_ms: u64) -> (r: Result<
    (),
    StoredGrantError,
>)
    ensures
        r is Ok <==> request.expires_at_unix_ms <= manifest_expires_at_unix_ms,
        r matches Err(e) ==> e is Refused,
{
    if request.expires_at_unix_ms > manifest_expires_at_unix_ms {
        return Err(refused("the Grant would expire after the manifest"));
    }
    Ok(())
}

/// A Grant built from a stored reservation, before its nested lease and the
/// Grant itself are signed and the stored manifest is attached.
#[derive(Debug, Clone, PartialEq, Eq)]
pub struct StoredGrantFields {
    pub schema_version: u32,
    pub grant_id: String,
    pub attempt_id: String,
    pub coordinator_device_id: String,
    pub coordinator_term: u64,
    pub issued_at_unix_ms: u64,
    pub expires_at_unix_ms: u64,
    pub nonce: Vec<u8>,
    /// This lane reads its lease from the durable store only.
    pub lease_from_durable_store: bool,
    pub lease: LeaseFields,
    /// The manifest hash the store recomputed and compared.
    pub manifest_hash: [u8; 32],
}

/// Builds the Grant of a stored reservation from the request, the stored
/// lease (already checked, see `check_stored_grant`), the expiry of the
/// stored manifest as verified now, and its stored hash: schema 2, the
/// request's identity, times and nonce, the lease's coordinator and term,
/// and the lease itself nested. A Grant that would outlive the lease or the
/// manifest is refused; a lease limit the wire cannot carry is a storage
/// failure.
pub fn stored_grant_fields(
    request: &StoredGrantRequest,
    lease: &StoredLease,
    manifest_expires_at_unix_ms: u64,
    manifest_hash: [u8; 32],
) -> (r: Result<StoredGrantFields, StoredGrantError>)
    ensures
        r is Ok <==> (request.expires_at_unix_ms <= lease.expires_at_unix_ms && request.expires_at_unix_ms
            <= manifest_expires_at_unix_ms && lease.max_total_duration_seconds <= u32::MAX),
        r matches Err(e) ==> (if request.expires_at_unix_ms > lease.expires_at_unix_ms
            || request.expires_at_unix_ms > manifest_expires_at_unix_ms {
            e is Refused
        } else {
            e is Storage
        }),
        r matches Ok(g) ==> {
            &&& g.schema_version == 2
            &&& g.lease_from_durable_store
            &&& g.grant_id@ == request.grant_id@
            &&& g.attempt_id@ == request.attempt_id@
            &&& g.coordinator_device_id@ == lease.issuing_coordinator_id@
            &&& g.coordinator_term == lease.coordinator_term
            &&& g.issued_at_unix_ms == request.issued_at_unix_ms
            &&& g.expires_at_unix_ms == request.expires_at_unix_ms
            &&& g.expires_at_unix_ms <= lease.expires_at_unix_ms
            &&& g.expires_at_unix_ms <= manifest_expires_at_unix_ms
            &&& g.nonce@ == request.nonce@
            &&& g.lease.fence_epoch == lease.fence_epoch
            &&& g.lease.lease_id@ == lease.lease_id@
            &&& g.lease.job_id@ == lease.job_id@
            &&& g.lease.attempt_id@ == lease.attempt_id@
            &&& g.lease.holder_node_id@ == lease.holder_node_id@
            &&& g.lease.coordinator_term == lease.coordinator_term
            &&& g.lease.expires_at_unix_ms == lease.expires_at_unix_ms
            &&& g.manifest_hash == manifest_hash
        },
{
    if request.expires_at_unix_ms > lease.expires_at_unix_ms {
        return Err(refused("the Grant would expire after the lease"));
    }
    check_manifest_lifetime(request, manifest_expires_at_unix_ms)?;
    let nested = match unsigned_lease_from_stored(lease) {
        Ok(f) => f,
        Err(m) => {
            return Err(StoredGrantError::Storage(m));
        },
    };
    Ok(
        StoredGrantFields {
            schema_version: 2,
            grant_id: copy_string(&request.grant_id),
            attempt_id: copy_string(&request.attempt_id),
            coordinator_device_id: copy_string(&lease.issuing_coordinator_id),
            coordinator_term: lease.coordinator_term,
            issued_at_unix_ms: request.issued_at_unix_ms,
            expires_at_unix_ms: request.expires_at_unix_ms,
            nonce: crate::job_store::copy_bytes(&request.nonce),
            lease_from_durable_store: true,
            lease: nested,
            manifest_hash,
        },
    )
}

/// The lease's duration limit as the wire carries it (`u32`); a stored value
/// out of that range is a storage failure, never truncated.
pub fn wire_max_total_duration(lease: &StoredLease) -> (r: Result<u32, StoredGrantError>)
    ensures
        match r {
            Ok(v) => lease.max_total_duration_seconds <= u32::MAX && v == lease.max_total_duration_seconds,
            Err(e) => lease.max_total_duration_seconds > u32::MAX && e is Storage,
        },
{
    match u32_from_stored(lease.max_total_duration_seconds, "max_total_duration_seconds") {
        Ok(v) => Ok(v),
        Err(m) => Err(StoredGrantError::Storage(m)),
    }
}

/// The eight little-endian bytes of `n`.
pub open spec fn le_bytes(n: nat) -> Seq<u8>
    decreases 8nat,
{
    Seq::new(8, |i: int| ((n / crate::job_store::pow256(i as nat)) % 256) as u8)
}

/// A length-prefixed part: its byte length in eight little-endian bytes,
/// then the bytes.
pub open spec fn framed(part: Seq<u8>) -> Seq<u8> {
    le_bytes(part.len()) + part
}

/// The bytes the stored-Grant nonce is hashed from: the tag, the Grant id
/// and the attempt id, each length-prefixed so that neighbours cannot bleed
/// into each other.
pub open spec fn nonce_input(tag: Seq<u8>, grant_id: Seq<u8>, attempt_id: Seq<u8>) -> Seq<u8> {
    framed(tag) + framed(grant_id) + framed(attempt_id)
}

fn push_le(out: &mut Vec<u8>, n: u64)
    ensures
        final(out)@ == old(out)@ + le_bytes(n as nat),
{
    let mut x = n;
    let mut i: usize = 0;
    proof {
        assert(crate::job_store::pow256(0) == 1);
        assert(n as nat / 1 == n as nat);
        assert(out@.subrange(0, old(out)@.len() as int) =~= old(out)@);
    }
    while i < 8
        invariant
            i <= 8,
            out@.len() == old(out)@.len() + i,
            out@.subrange(0, old(out)@.len() as int) == old(out)@,
            x as nat == n as nat / crate::job_store::pow256(i as nat),
            forall|k: int| 0 <= k < i ==> out@[old(out)@.len() + k] == le_bytes(n as nat)[k],
        decreases 8 - i,
    {
        proof {
            let p = crate::job_store::pow256(i as nat);
            assert(crate::job_store::pow256((i + 1) as nat) == 256 * p);
            assert(p > 0) by {
                lemma_pow256_positive(i as nat);
            }
            assert((n as nat / p) / 256 == n as nat / (256 * p)) by {
                vstd::arithmetic::div_mod::lemma_div_denominator(n as int, p as int, 256);
                assert(p * 256 == 256 * p) by (nonlinear_arith);
            }
        }
        out.push((x % 256) as u8);
        x = x / 256;
        i = i + 1;
    }
    proof {
        assert(out@ =~= old(out)@ + le_bytes(n as nat));
    }
}

proof fn lemma_pow256_positive(n: nat)
    ensures
        crate::job_store::pow256(n) > 0,
    decreases n,
{
    if n > 0 {
        lemma_pow256_positive((n - 1) as nat);
    }
}

fn push_framed(out: &mut Vec<u8>, part: &[u8])
    ensures
        final(out)@ == old(out)@ + framed(part@),
{
    push_le(out, part.len() as u64);
    let ghost mid = out@;
    let mut i: usize = 0;
    while i < part.len()
        invariant
            i <= part@.len(),
            out@ == mid + part@.take(i as int),
        decreases part@.len() - i,
    {
        out.push(part[i]);
        proof {
            assert(part@.take(i + 1) =~= part@.take(i as int).push(part@[i as int]));
        }
        i = i + 1;
    }
    proof {
        assert(part@.take(part@.len() as int) =~= part@);
        assert(out@ =~= old(out)@ + framed(part@));
    }
}

/// The tag that starts the stored-Grant nonce input.
pub open spec fn nonce_tag() -> Seq<u8> {
    "gputeer/v1/grant-nonce".spec_bytes()
}

/// The input of the stored-Grant nonce (see `nonce_input`); the nonce is
/// the first sixteen bytes of its hash. It is deterministic on purpose, so
/// that issuing the same Grant again gives the same Grant; replay defence is
/// the receiver's replay store, not the nonce's unpredictability.
pub fn stored_grant_nonce_input(grant_id: &str, attempt_id: &str) -> (r: Vec<u8>)
    ensures
        r@ == nonce_input(nonce_tag(), grant_id.spec_bytes(), attempt_id.spec_bytes()),
{
    let mut out: Vec<u8> = Vec::new();
    push_framed(&mut out, "gputeer/v1/grant-nonce".as_bytes());
    push_framed(&mut out, grant_id.as_bytes());
    push_framed(&mut out, attempt_id.as_bytes());
    proof {
        assert(out@ =~= nonce_input(nonce_tag(), grant_id.spec_bytes(), attempt_id.spec_bytes()));
    }
    out
}

} // verus!
