//! Lease facts that the coordinator has issued: identity, fencing epoch,
//! expiry and revocation, with the rules for issuing, renewing, revoking and
//! classifying a resume request.
//!
//! The store only remembers leases that exist; it never decides when a new
//! lease id is issued or when a lease is revoked.
use vstd::prelude::*;

use crate::text::{copy_string, decimal, push_decimal, push_str, str_eq};

verus! {

/// A stored lease. The coordinator signature is not stored: it is computed
/// again on every transmission.
#[derive(Debug, Clone, PartialEq, Eq)]
pub struct StoredLease {
    pub lease_id: String,
    pub job_id: String,
    pub attempt_id: String,
    pub holder_node_id: String,
    pub fence_epoch: u64,
    pub expires_at_unix_ms: u64,
    pub issuing_coordinator_id: String,
    pub coordinator_term: u64,
    pub issued_at_unix_ms: u64,
    pub renew_after_unix_ms: u64,
    pub max_total_duration_seconds: u64,
    pub revoked_at_unix_ms: Option<u64>,
}

/// Identity and fencing fields carried by an explicit Resume request.
#[derive(Debug, Clone, PartialEq, Eq)]
pub struct ResumeRequestIdentity {
    pub lease_id: String,
    pub node_id: String,
    pub job_id: String,
    pub attempt_id: String,
    pub fence_epoch: u64,
}

/// Read-only classification of an explicit Resume request.
#[derive(Debug, Clone, PartialEq, Eq)]
pub enum ResumeDecision {
    Resumed(StoredLease),
    UnknownLease,
    IdentityConflict { field: &'static str, stored: String, requested: String },
    Revoked { stored: StoredLease },
    Expired { stored: StoredLease },
    Superseded { stored: StoredLease },
    EpochAhead { stored: StoredLease },
}

#[derive(Debug, PartialEq, Eq)]
pub enum LeaseStoreError {
    /// The requested `lease_id` is not stored; renewal never issues a new lease.
    NotFound,
    /// An identity field differs from the stored lease with the same id; the
    /// stored fact is never overwritten.
    IdentityConflict { field: &'static str, stored: String, requested: String },
    /// The lease was durably revoked and cannot be reissued or renewed.
    Revoked { revoked_at_unix_ms: u64 },
    /// The stored lease had already expired when reissue or renewal was attempted.
    Expired { expires_at_unix_ms: u64 },
    /// Storage I/O failure.
    Io(String),
    /// The storage lock could not be taken in time.
    LockTimeout,
}

impl LeaseStoreError {
    /// The text of the error.
    pub open spec fn text(self) -> Seq<char> {
        match self {
            LeaseStoreError::NotFound => "lease_id is not in the store"@,
            LeaseStoreError::IdentityConflict { field, stored, requested } => "identity conflict: "@
                + field@ + " stored="@ + stored@ + " requested="@ + requested@,
            LeaseStoreError::Revoked { revoked_at_unix_ms } => "lease revoked at unix ms: "@ + decimal(
                revoked_at_unix_ms as nat,
            ),
            LeaseStoreError::Expired { expires_at_unix_ms } => "lease expired at unix ms: "@ + decimal(
                expires_at_unix_ms as nat,
            ),
            LeaseStoreError::Io(m) => "lease store I/O error: "@ + m@,
            LeaseStoreError::LockTimeout => "lease store lock acquisition timed out"@,
        }
    }

    /// The text of the error, for logs and wire details.
    pub fn message(&self) -> (r: String)
        ensures
            r@ == self.text(),
    {
        match self {
            LeaseStoreError::NotFound => String::from_str("lease_id is not in the store"),
            LeaseStoreError::IdentityConflict { field, stored, requested } => {
                let mut r = String::from_str("identity conflict: ");
                push_str(&mut r, field);
                push_str(&mut r, " stored=");
                push_str(&mut r, stored.as_str());
                push_str(&mut r, " requested=");
                push_str(&mut r, requested.as_str());
                r
            },
            LeaseStoreError::Revoked { revoked_at_unix_ms } => {
                let mut r = String::from_str("lease revoked at unix ms: ");
                push_decimal(&mut r, *revoked_at_unix_ms);
                r
            },
            LeaseStoreError::Expired { expires_at_unix_ms } => {
                let mut r = String::from_str("lease expired at unix ms: ");
                push_decimal(&mut r, *expires_at_unix_ms);
                r
            },
            LeaseStoreError::Io(m) => {
                let mut r = String::from_str("lease store I/O error: ");
                push_str(&mut r, m.as_str());
                r
            },
            LeaseStoreError::LockTimeout => String::from_str("lease store lock acquisition timed out"),
        }
    }
}

/// Result of a renewal that checks the cumulative duration limit.
#[derive(Debug, Clone, PartialEq, Eq)]
pub enum RenewDecision {
    /// The expiry was extended; carries the lease with the new expiry.
    Renewed(StoredLease),
    /// The limit was already exceeded; nothing changed, carries the stored lease.
    MaxDurationExceeded(StoredLease),
}

/// `max_total_duration_seconds` in milliseconds, saturating at `u64::MAX`.
pub open spec fn max_duration_ms(lease: StoredLease) -> int {
    let ms = lease.max_total_duration_seconds * 1000;
    if ms > u64::MAX {
        u64::MAX as int
    } else {
        ms
    }
}

/// More time than allowed has passed since issue, or the clock went back
/// before the issue time (treated as exceeded, fail closed).
pub open spec fn max_duration_exceeded(lease: StoredLease, now_unix_ms: u64) -> bool {
    now_unix_ms < lease.issued_at_unix_ms || now_unix_ms - lease.issued_at_unix_ms > max_duration_ms(
        lease,
    )
}

impl StoredLease {
    /// Whether the cumulative lifetime limit is exceeded at `now_unix_ms`.
    /// A clock that reads earlier than the issue time counts as exceeded.
    pub fn is_max_duration_exceeded(&self, now_unix_ms: u64) -> (r: bool)
        ensures
            r == max_duration_exceeded(*self, now_unix_ms),
    {
        let max_duration_ms = if self.max_total_duration_seconds > u64::MAX / 1_000 {
            u64::MAX
        } else {
            self.max_total_duration_seconds * 1_000
        };
        match now_unix_ms.checked_sub(self.issued_at_unix_ms) {
            Some(elapsed_ms) => elapsed_ms > max_duration_ms,
            None => true,
        }
    }

    /// A field-by-field copy.
    pub fn copied(&self) -> (r: StoredLease)
        ensures
            r == *self,
    {
        StoredLease {
            lease_id: copy_string(&self.lease_id),
            job_id: copy_string(&self.job_id),
            attempt_id: copy_string(&self.attempt_id),
            holder_node_id: copy_string(&self.holder_node_id),
            fence_epoch: self.fence_epoch,
            expires_at_unix_ms: self.expires_at_unix_ms,
            issuing_coordinator_id: copy_string(&self.issuing_coordinator_id),
            coordinator_term: self.coordinator_term,
            issued_at_unix_ms: self.issued_at_unix_ms,
            renew_after_unix_ms: self.renew_after_unix_ms,
            max_total_duration_seconds: self.max_total_duration_seconds,
            revoked_at_unix_ms: self.revoked_at_unix_ms,
        }
    }
}

/// The Resume classification of `req` against the stored lease with its id.
/// The order is part of the wire contract: identity, revocation, expiry,
/// then epoch direction, so a revoked and expired lease is `Revoked`.
pub open spec fn resume_decision(
    stored: Option<StoredLease>,
    req: ResumeRequestIdentity,
    now_unix_ms: u64,
) -> ResumeDecision {
    match stored {
        None => ResumeDecision::UnknownLease,
        Some(s) => if s.holder_node_id@ != req.node_id@ {
            ResumeDecision::IdentityConflict {
                field: "node_id",
                stored: s.holder_node_id,
                requested: req.node_id,
            }
        } else if s.job_id@ != req.job_id@ {
            ResumeDecision::IdentityConflict { field: "job_id", stored: s.job_id, requested: req.job_id }
        } else if s.attempt_id@ != req.attempt_id@ {
            ResumeDecision::IdentityConflict {
                field: "attempt_id",
                stored: s.attempt_id,
                requested: req.attempt_id,
            }
        } else if s.revoked_at_unix_ms is Some {
            ResumeDecision::Revoked { stored: s }
        } else if s.expires_at_unix_ms <= now_unix_ms {
            ResumeDecision::Expired { stored: s }
        } else if req.fence_epoch < s.fence_epoch {
            ResumeDecision::Superseded { stored: s }
        } else if req.fence_epoch > s.fence_epoch {
            ResumeDecision::EpochAhead { stored: s }
        } else {
            ResumeDecision::Resumed(s)
        },
    }
}

/// The first identity field (job, attempt, holder, issuing coordinator) in
/// which `candidate` differs from `stored`.
pub open spec fn identity_conflict(stored: StoredLease, candidate: StoredLease) -> Option<
    LeaseStoreError,
> {
    if stored.job_id@ != candidate.job_id@ {
        Some(
            LeaseStoreError::IdentityConflict {
                field: "job_id",
                stored: stored.job_id,
                requested: candidate.job_id,
            },
        )
    } else if stored.attempt_id@ != candidate.attempt_id@ {
        Some(
            LeaseStoreError::IdentityConflict {
                field: "attempt_id",
                stored: stored.attempt_id,
                requested: candidate.attempt_id,
            },
        )
    } else if stored.holder_node_id@ != candidate.holder_node_id@ {
        Some(
            LeaseStoreError::IdentityConflict {
                field: "holder_node_id",
                stored: stored.holder_node_id,
                requested: candidate.holder_node_id,
            },
        )
    } else if stored.issuing_coordinator_id@ != candidate.issuing_coordinator_id@ {
        Some(
            LeaseStoreError::IdentityConflict {
                field: "issuing_coordinator_id",
                stored: stored.issuing_coordinator_id,
                requested: candidate.issuing_coordinator_id,
            },
        )
    } else {
        None
    }
}

/// Leases by id.
pub type LeaseMap = Map<Seq<char>, StoredLease>;

/// What a first issue does: with no stored lease of that id the candidate is
/// stored as given and returned; otherwise the stored lease wins,
/// unless the identity differs, it is revoked, or it has expired.
pub open spec fn get_or_issue_step(m: LeaseMap, candidate: StoredLease, now_unix_ms: u64) -> (
    LeaseMap,
    Result<StoredLease, LeaseStoreError>,
) {
    let id = candidate.lease_id@;
    if m.contains_key(id) {
        let stored = m[id];
        (
            m,
            if identity_conflict(stored, candidate) is Some {
                Err(identity_conflict(stored, candidate)->0)
            } else if stored.revoked_at_unix_ms is Some {
                Err(LeaseStoreError::Revoked { revoked_at_unix_ms: stored.revoked_at_unix_ms->0 })
            } else if stored.expires_at_unix_ms <= now_unix_ms {
                Err(LeaseStoreError::Expired { expires_at_unix_ms: stored.expires_at_unix_ms })
            } else {
                Ok(stored)
            },
        )
    } else {
        (m.insert(id, candidate), Ok(candidate))
    }
}

/// What a revocation does: the first revocation time is kept; repeating it
/// succeeds and changes nothing.
pub open spec fn mark_revoked_step(m: LeaseMap, lease_id: Seq<char>, revoked_at_unix_ms: u64) -> (
    LeaseMap,
    Result<StoredLease, LeaseStoreError>,
) {
    if !m.contains_key(lease_id) {
        (m, Err(LeaseStoreError::NotFound))
    } else {
        let stored = m[lease_id];
        let at = match stored.revoked_at_unix_ms {
            Some(first) => first,
            None => revoked_at_unix_ms,
        };
        let revoked = StoredLease { revoked_at_unix_ms: Some(at), ..stored };
        (m.insert(lease_id, revoked), Ok(revoked))
    }
}

/// The lease with only its expiry and renew-after times replaced.
pub open spec fn with_expiry(lease: StoredLease, expires_at_unix_ms: u64, renew_after_unix_ms: u64) -> StoredLease {
    StoredLease { expires_at_unix_ms, renew_after_unix_ms, ..lease }
}

/// What a plain renewal does: an unknown id is `NotFound`, a revoked lease is
/// refused, otherwise only the expiry fields change.
pub open spec fn renew_existing_step(
    m: LeaseMap,
    lease_id: Seq<char>,
    new_expires_at_unix_ms: u64,
    new_renew_after_unix_ms: u64,
) -> (LeaseMap, Result<StoredLease, LeaseStoreError>) {
    if !m.contains_key(lease_id) {
        (m, Err(LeaseStoreError::NotFound))
    } else if m[lease_id].revoked_at_unix_ms is Some {
        (m, Err(LeaseStoreError::Revoked { revoked_at_unix_ms: m[lease_id].revoked_at_unix_ms->0 }))
    } else {
        let renewed = with_expiry(m[lease_id], new_expires_at_unix_ms, new_renew_after_unix_ms);
        (m.insert(lease_id, renewed), Ok(renewed))
    }
}

/// What a renewal under the duration limit does: unknown, revoked and
/// expired (expiry at or before now) leases are refused; past the cumulative
/// limit nothing changes; otherwise only the expiry fields change.
pub open spec fn renew_within_duration_step(
    m: LeaseMap,
    lease_id: Seq<char>,
    now_unix_ms: u64,
    new_expires_at_unix_ms: u64,
    new_renew_after_unix_ms: u64,
) -> (LeaseMap, Result<RenewDecision, LeaseStoreError>) {
    if !m.contains_key(lease_id) {
        (m, Err(LeaseStoreError::NotFound))
    } else {
        let stored = m[lease_id];
        if stored.revoked_at_unix_ms is Some {
            (m, Err(LeaseStoreError::Revoked { revoked_at_unix_ms: stored.revoked_at_unix_ms->0 }))
        } else if stored.expires_at_unix_ms <= now_unix_ms {
            (m, Err(LeaseStoreError::Expired { expires_at_unix_ms: stored.expires_at_unix_ms }))
        } else if max_duration_exceeded(stored, now_unix_ms) {
            (m, Ok(RenewDecision::MaxDurationExceeded(stored)))
        } else {
            let renewed = with_expiry(stored, new_expires_at_unix_ms, new_renew_after_unix_ms);
            (m.insert(lease_id, renewed), Ok(RenewDecision::Renewed(renewed)))
        }
    }
}

/// `after` keeps every lease of `before`, with the same identity, epoch,
/// issue time and limit, and keeps every revocation time once set.
pub open spec fn keeps_lease_facts(before: LeaseMap, after: LeaseMap) -> bool {
    forall|k: Seq<char>|
        #[trigger] before.contains_key(k) ==> {
            &&& after.contains_key(k)
            &&& after[k].lease_id == before[k].lease_id
            &&& after[k].job_id == before[k].job_id
            &&& after[k].attempt_id == before[k].attempt_id
            &&& after[k].holder_node_id == before[k].holder_node_id
            &&& after[k].issuing_coordinator_id == before[k].issuing_coordinator_id
            &&& after[k].fence_epoch == before[k].fence_epoch
            &&& after[k].coordinator_term == before[k].coordinator_term
            &&& after[k].issued_at_unix_ms == before[k].issued_at_unix_ms
            &&& after[k].max_total_duration_seconds == before[k].max_total_duration_seconds
            &&& (before[k].revoked_at_unix_ms is Some ==> after[k].revoked_at_unix_ms
                == before[k].revoked_at_unix_ms)
        }
}

/// No operation forgets or damages a stored lease: issue, revoke and both
/// renewals keep every stored lease's identity, fencing epoch, issue time and
/// limit, and a revocation, once stored, is never undone or moved.
pub proof fn law_operations_keep_lease_facts(
    m: LeaseMap,
    candidate: StoredLease,
    lease_id: Seq<char>,
    now_unix_ms: u64,
    at_unix_ms: u64,
    new_expires_at_unix_ms: u64,
    new_renew_after_unix_ms: u64,
)
    ensures
        keeps_lease_facts(m, get_or_issue_step(m, candidate, now_unix_ms).0),
        keeps_lease_facts(m, mark_revoked_step(m, lease_id, at_unix_ms).0),
        keeps_lease_facts(
            m,
            renew_existing_step(m, lease_id, new_expires_at_unix_ms, new_renew_after_unix_ms).0,
        ),
        keeps_lease_facts(
            m,
            renew_within_duration_step(
                m,
                lease_id,
                now_unix_ms,
                new_expires_at_unix_ms,
                new_renew_after_unix_ms,
            ).0,
        ),
{
}

/// Revoking is idempotent: a second revocation, at any time, returns the
/// same lease and changes nothing.
pub proof fn law_mark_revoked_idempotent(m: LeaseMap, lease_id: Seq<char>, first_at: u64, second_at: u64)
    ensures
        ({
            let (m1, r1) = mark_revoked_step(m, lease_id, first_at);
            let (m2, r2) = mark_revoked_step(m1, lease_id, second_at);
            m2 == m1 && r2 == r1
        }),
{
    let (m1, r1) = mark_revoked_step(m, lease_id, first_at);
    if m.contains_key(lease_id) {
        assert(m1.insert(lease_id, m1[lease_id]) =~= m1);
    }
}

/// A revoked lease can be neither reissued nor renewed, and the refusal
/// changes nothing. Resume reports it as revoked even when it has also
/// expired.
pub proof fn law_revoked_lease_is_final(
    m: LeaseMap,
    candidate: StoredLease,
    req: ResumeRequestIdentity,
    now_unix_ms: u64,
    new_expires_at_unix_ms: u64,
    new_renew_after_unix_ms: u64,
)
    requires
        m.contains_key(candidate.lease_id@),
        m[candidate.lease_id@].revoked_at_unix_ms is Some,
        identity_conflict(m[candidate.lease_id@], candidate) is None,
    ensures
        ({
            let id = candidate.lease_id@;
            let revoked = LeaseStoreError::Revoked {
                revoked_at_unix_ms: m[id].revoked_at_unix_ms->0,
            };
            &&& get_or_issue_step(m, candidate, now_unix_ms) == (m, Err::<StoredLease, LeaseStoreError>(revoked))
            &&& renew_existing_step(m, id, new_expires_at_unix_ms, new_renew_after_unix_ms) == (
                m,
                Err::<StoredLease, LeaseStoreError>(revoked),
            )
            &&& renew_within_duration_step(
                m,
                id,
                now_unix_ms,
                new_expires_at_unix_ms,
                new_renew_after_unix_ms,
            ) == (m, Err::<RenewDecision, LeaseStoreError>(revoked))
            &&& (req.lease_id@ == id && req.node_id@ == m[id].holder_node_id@ && req.job_id@
                == m[id].job_id@ && req.attempt_id@ == m[id].attempt_id@) ==> resume_decision(
                Some(m[id]),
                req,
                now_unix_ms,
            ) == ResumeDecision::Revoked { stored: m[id] }
        }),
{
}

/// A renewal that succeeds changes only the expiry and renew-after times of
/// that one lease; every other lease is untouched.
pub proof fn law_renewal_changes_only_expiry(
    m: LeaseMap,
    lease_id: Seq<char>,
    now_unix_ms: u64,
    new_expires_at_unix_ms: u64,
    new_renew_after_unix_ms: u64,
)
    ensures
        renew_existing_step(m, lease_id, new_expires_at_unix_ms, new_renew_after_unix_ms).1 is Ok
            ==> renew_existing_step(m, lease_id, new_expires_at_unix_ms, new_renew_after_unix_ms).0
            == m.insert(lease_id, with_expiry(m[lease_id], new_expires_at_unix_ms, new_renew_after_unix_ms)),
        renew_within_duration_step(m, lease_id, now_unix_ms, new_expires_at_unix_ms, new_renew_after_unix_ms).0 == m
            || renew_within_duration_step(
            m,
            lease_id,
            now_unix_ms,
            new_expires_at_unix_ms,
            new_renew_after_unix_ms,
        ).0 == m.insert(lease_id, with_expiry(m[lease_id], new_expires_at_unix_ms, new_renew_after_unix_ms)),
{
}

/// Expiry is inclusive: a stored lease whose expiry equals `now` is refused
/// by reissue, renewal under the limit, and Resume; one millisecond later it
/// is still valid.
pub proof fn law_expiry_boundary_is_inclusive(m: LeaseMap, candidate: StoredLease, now_unix_ms: u64)
    requires
        m.contains_key(candidate.lease_id@),
        m[candidate.lease_id@].revoked_at_unix_ms is None,
        identity_conflict(m[candidate.lease_id@], candidate) is None,
    ensures
        m[candidate.lease_id@].expires_at_unix_ms == now_unix_ms ==> get_or_issue_step(m, candidate, now_unix_ms).1
            == Err::<StoredLease, LeaseStoreError>(LeaseStoreError::Expired { expires_at_unix_ms: now_unix_ms }),
        m[candidate.lease_id@].expires_at_unix_ms == now_unix_ms + 1 ==> get_or_issue_step(
            m,
            candidate,
            now_unix_ms,
        ).1 == Ok::<StoredLease, LeaseStoreError>(m[candidate.lease_id@]),
{
}

/// A clock that reads earlier than the issue time always counts as past the
/// duration limit, so renewal under the limit never extends such a lease.
pub proof fn law_clock_rollback_is_exceeded(lease: StoredLease, now_unix_ms: u64)
    requires
        now_unix_ms < lease.issued_at_unix_ms,
    ensures
        max_duration_exceeded(lease, now_unix_ms),
{
}

/// The leases of the store, each stored once under its own id.
pub struct CoordinatorLeaseStore {
    leases: Vec<StoredLease>,
}

spec fn ids_unique(v: Seq<StoredLease>) -> bool {
    forall|i: int, j: int|
        0 <= i < v.len() && 0 <= j < v.len() && (#[trigger] v[i]).lease_id@ == (#[trigger] v[j]).lease_id@
            ==> i == j
}

spec fn lease_map(v: Seq<StoredLease>) -> LeaseMap {
    Map::new(
        |k: Seq<char>| exists|i: int| 0 <= i < v.len() && (#[trigger] v[i]).lease_id@ == k,
        |k: Seq<char>| v[choose|i: int| 0 <= i < v.len() && (#[trigger] v[i]).lease_id@ == k],
    )
}

proof fn lemma_lease_map_at(v: Seq<StoredLease>, i: int)
    requires
        ids_unique(v),
        0 <= i < v.len(),
    ensures
        lease_map(v).contains_key(v[i].lease_id@),
        lease_map(v)[v[i].lease_id@] == v[i],
{
    let k = v[i].lease_id@;
    assert(exists|j: int| 0 <= j < v.len() && (#[trigger] v[j]).lease_id@ == k);
    let j = choose|j: int| 0 <= j < v.len() && (#[trigger] v[j]).lease_id@ == k;
    assert(j == i);
}

proof fn lemma_lease_map_update(v: Seq<StoredLease>, i: int, x: StoredLease)
    requires
        ids_unique(v),
        0 <= i < v.len(),
        x.lease_id@ == v[i].lease_id@,
    ensures
        ids_unique(v.update(i, x)),
        lease_map(v.update(i, x)) == lease_map(v).insert(x.lease_id@, x),
{
    let w = v.update(i, x);
    assert(ids_unique(w)) by {
        assert forall|a: int, b: int|
            0 <= a < w.len() && 0 <= b < w.len() && (#[trigger] w[a]).lease_id@ == (
            #[trigger] w[b]).lease_id@ implies a == b by {
            assert(v[a].lease_id@ == w[a].lease_id@);
            assert(v[b].lease_id@ == w[b].lease_id@);
        }
    }
    let lhs = lease_map(w);
    let rhs = lease_map(v).insert(x.lease_id@, x);
    assert forall|k: Seq<char>| lhs.contains_key(k) <==> rhs.contains_key(k) by {
        if lhs.contains_key(k) {
            let j = choose|j: int| 0 <= j < w.len() && (#[trigger] w[j]).lease_id@ == k;
            assert(v[j].lease_id@ == k);
        }
        if rhs.contains_key(k) && k != x.lease_id@ {
            let j = choose|j: int| 0 <= j < v.len() && (#[trigger] v[j]).lease_id@ == k;
            assert(w[j].lease_id@ == k);
        }
        if k == x.lease_id@ {
            assert(w[i].lease_id@ == k);
        }
    }
    assert forall|k: Seq<char>| lhs.contains_key(k) implies lhs[k] == rhs[k] by {
        let j = choose|j: int| 0 <= j < w.len() && (#[trigger] w[j]).lease_id@ == k;
        lemma_lease_map_at(w, j);
        if j == i {
        } else {
            lemma_lease_map_at(v, j);
        }
    }
    assert(lhs =~= rhs);
}

proof fn lemma_lease_map_push(v: Seq<StoredLease>, x: StoredLease)
    requires
        ids_unique(v),
        !lease_map(v).contains_key(x.lease_id@),
    ensures
        ids_unique(v.push(x)),
        lease_map(v.push(x)) == lease_map(v).insert(x.lease_id@, x),
{
    let w = v.push(x);
    assert(ids_unique(w)) by {
        assert forall|a: int, b: int|
            0 <= a < w.len() && 0 <= b < w.len() && (#[trigger] w[a]).lease_id@ == (
            #[trigger] w[b]).lease_id@ implies a == b by {
            if a < v.len() && b == v.len() {
                assert(v[a].lease_id@ == x.lease_id@);
            }
            if b < v.len() && a == v.len() {
                assert(v[b].lease_id@ == x.lease_id@);
            }
            if a < v.len() && b < v.len() {
                assert(v[a] == w[a] && v[b] == w[b]);
            }
        }
    }
    let lhs = lease_map(w);
    let rhs = lease_map(v).insert(x.lease_id@, x);
    assert forall|k: Seq<char>| lhs.contains_key(k) <==> rhs.contains_key(k) by {
        if lhs.contains_key(k) {
            let j = choose|j: int| 0 <= j < w.len() && (#[trigger] w[j]).lease_id@ == k;
            if j < v.len() {
                assert(v[j].lease_id@ == k);
            }
        }
        if rhs.contains_key(k) && k != x.lease_id@ {
            let j = choose|j: int| 0 <= j < v.len() && (#[trigger] v[j]).lease_id@ == k;
            assert(w[j].lease_id@ == k);
        }
        if k == x.lease_id@ {
            assert(w[v.len() as int].lease_id@ == k);
        }
    }
    assert forall|k: Seq<char>| lhs.contains_key(k) implies lhs[k] == rhs[k] by {
        let j = choose|j: int| 0 <= j < w.len() && (#[trigger] w[j]).lease_id@ == k;
        lemma_lease_map_at(w, j);
        if j < v.len() {
            assert(w[j] == v[j]);
            lemma_lease_map_at(v, j);
        }
    }
    assert(lhs =~= rhs);
}

impl View for CoordinatorLeaseStore {
    type V = LeaseMap;

    closed spec fn view(&self) -> LeaseMap {
        lease_map(self.leases@)
    }
}

impl CoordinatorLeaseStore {
    /// Each lease id occurs once.
    pub closed spec fn wf(&self) -> bool {
        ids_unique(self.leases@)
    }

    /// An empty store.
    pub fn new() -> (s: Self)
        ensures
            s.wf(),
            s@ == Map::<Seq<char>, StoredLease>::empty(),
    {
        let s = CoordinatorLeaseStore { leases: Vec::new() };
        assert(s@ =~= Map::<Seq<char>, StoredLease>::empty());
        s
    }

    fn find(&self, lease_id: &str) -> (r: Option<usize>)
        requires
            self.wf(),
        ensures
            match r {
                Some(i) => i < self.leases@.len() && self.leases@[i as int].lease_id@ == lease_id@
                    && self@.contains_key(lease_id@) && self@[lease_id@] == self.leases@[i as int],
                None => !self@.contains_key(lease_id@),
            },
    {
        let mut i: usize = 0;
        while i < self.leases.len()
            invariant
                ids_unique(self.leases@),
                i <= self.leases@.len(),
                forall|k: int| 0 <= k < i ==> (#[trigger] self.leases@[k]).lease_id@ != lease_id@,
            decreases self.leases@.len() - i,
        {
            if str_eq(self.leases[i].lease_id.as_str(), lease_id) {
                proof {
                    lemma_lease_map_at(self.leases@, i as int);
                }
                return Some(i);
            }
            i = i + 1;
        }
        proof {
            if self@.contains_key(lease_id@) {
                let j = choose|j: int|
                    0 <= j < self.leases@.len() && (#[trigger] self.leases@[j]).lease_id@ == lease_id@;
            }
        }
        None
    }

    /// The stored lease with id `lease_id`, if any.
    pub fn get(&self, lease_id: &str) -> (r: Result<Option<StoredLease>, LeaseStoreError>)
        requires
            self.wf(),
        ensures
            r == Ok::<Option<StoredLease>, LeaseStoreError>(
                if self@.contains_key(lease_id@) {
                    Some(self@[lease_id@])
                } else {
                    None
                },
            ),
    {
        match self.find(lease_id) {
            Some(i) => Ok(Some(self.leases[i].copied())),
            None => Ok(None),
        }
    }

    /// Classifies an explicit Resume without issuing or changing any lease.
    pub fn classify_resume(&self, request_identity: &ResumeRequestIdentity, now_unix_ms: u64) -> (r:
        Result<ResumeDecision, LeaseStoreError>)
        requires
            self.wf(),
        ensures
            r == Ok::<ResumeDecision, LeaseStoreError>(
                resume_decision(
                    if self@.contains_key(request_identity.lease_id@) {
                        Some(self@[request_identity.lease_id@])
                    } else {
                        None
                    },
                    *request_identity,
                    now_unix_ms,
                ),
            ),
    {
        let stored = match self.find(request_identity.lease_id.as_str()) {
            None => return Ok(ResumeDecision::UnknownLease),
            Some(i) => self.leases[i].copied(),
        };
        if stored.holder_node_id != request_identity.node_id {
            return Ok(
                ResumeDecision::IdentityConflict {
                    field: "node_id",
                    stored: stored.holder_node_id,
                    requested: copy_string(&request_identity.node_id),
                },
            );
        }
        if stored.job_id != request_identity.job_id {
            return Ok(
                ResumeDecision::IdentityConflict {
                    field: "job_id",
                    stored: stored.job_id,
                    requested: copy_string(&request_identity.job_id),
                },
            );
        }
        if stored.attempt_id != request_identity.attempt_id {
            return Ok(
                ResumeDecision::IdentityConflict {
                    field: "attempt_id",
                    stored: stored.attempt_id,
                    requested: copy_string(&request_identity.attempt_id),
                },
            );
        }
        if stored.revoked_at_unix_ms.is_some() {
            return Ok(ResumeDecision::Revoked { stored });
        }
        if stored.expires_at_unix_ms <= now_unix_ms {
            return Ok(ResumeDecision::Expired { stored });
        }
        if request_identity.fence_epoch < stored.fence_epoch {
            return Ok(ResumeDecision::Superseded { stored });
        }
        if request_identity.fence_epoch > stored.fence_epoch {
            return Ok(ResumeDecision::EpochAhead { stored });
        }
        Ok(ResumeDecision::Resumed(stored))
    }

    /// First issue: stores `candidate` when its id is new and returns it; when
    /// the id is stored, the stored lease is returned (stored values win over
    /// the candidate) unless an identity field differs, it was revoked, or it
    /// has expired. Nothing is overwritten.
    pub fn get_or_issue(&mut self, candidate: &StoredLease, now_unix_ms: u64) -> (r: Result<
        StoredLease,
        LeaseStoreError,
    >)
        requires
            old(self).wf(),
        ensures
            final(self).wf(),
            (final(self)@, r) == get_or_issue_step(old(self)@, *candidate, now_unix_ms),
    {
        match self.find(candidate.lease_id.as_str()) {
            Some(i) => {
                let stored = self.leases[i].copied();
                if let Some(conflict) = check_identity_conflict(&stored, candidate) {
                    return Err(conflict);
                }
                if let Some(revoked_at_unix_ms) = stored.revoked_at_unix_ms {
                    return Err(LeaseStoreError::Revoked { revoked_at_unix_ms });
                }
                if stored.expires_at_unix_ms <= now_unix_ms {
                    return Err(LeaseStoreError::Expired { expires_at_unix_ms: stored.expires_at_unix_ms });
                }
                Ok(stored)
            },
            None => {
                let row = candidate.copied();
                proof {
                    lemma_lease_map_push(self.leases@, row);
                }
                self.leases.push(row);
                Ok(candidate.copied())
            },
        }
    }

    /// Durably marks a lease revoked. Repeating it keeps the first revocation
    /// time and succeeds.
    pub fn mark_revoked(&mut self, lease_id: &str, revoked_at_unix_ms: u64) -> (r: Result<
        StoredLease,
        LeaseStoreError,
    >)
        requires
            old(self).wf(),
        ensures
            final(self).wf(),
            (final(self)@, r) == mark_revoked_step(old(self)@, lease_id@, revoked_at_unix_ms),
    {
        match self.find(lease_id) {
            None => Err(LeaseStoreError::NotFound),
            Some(i) => {
                let mut stored = self.leases[i].copied();
                let timestamp = match stored.revoked_at_unix_ms {
                    Some(first) => first,
                    None => revoked_at_unix_ms,
                };
                stored.revoked_at_unix_ms = Some(timestamp);
                proof {
                    lemma_lease_map_update(self.leases@, i as int, stored);
                }
                self.leases.set(i, stored.copied());
                Ok(stored)
            },
        }
    }

    /// Renewal: an unknown id is `NotFound` (no lease is issued here), a
    /// revoked lease is refused, otherwise only `expires_at_unix_ms` and
    /// `renew_after_unix_ms` change; identity and epoch stay.
    pub fn renew_existing(
        &mut self,
        lease_id: &str,
        new_expires_at_unix_ms: u64,
        new_renew_after_unix_ms: u64,
    ) -> (r: Result<StoredLease, LeaseStoreError>)
        requires
            old(self).wf(),
        ensures
            final(self).wf(),
            (final(self)@, r) == renew_existing_step(
                old(self)@,
                lease_id@,
                new_expires_at_unix_ms,
                new_renew_after_unix_ms,
            ),
    {
        match self.find(lease_id) {
            None => Err(LeaseStoreError::NotFound),
            Some(i) => {
                let mut stored = self.leases[i].copied();
                if let Some(revoked_at_unix_ms) = stored.revoked_at_unix_ms {
                    return Err(LeaseStoreError::Revoked { revoked_at_unix_ms });
                }
                stored.expires_at_unix_ms = new_expires_at_unix_ms;
                stored.renew_after_unix_ms = new_renew_after_unix_ms;
                proof {
                    lemma_lease_map_update(self.leases@, i as int, stored);
                }
                self.leases.set(i, stored.copied());
                Ok(stored)
            },
        }
    }

    /// Renewal that first checks the cumulative duration limit. Past the
    /// limit (or with a clock before the issue time) nothing changes, so the
    /// next request is judged from the same issue time again.
    pub fn renew_existing_within_duration(
        &mut self,
        lease_id: &str,
        now_unix_ms: u64,
        new_expires_at_unix_ms: u64,
        new_renew_after_unix_ms: u64,
    ) -> (r: Result<RenewDecision, LeaseStoreError>)
        requires
            old(self).wf(),
        ensures
            final(self).wf(),
            (final(self)@, r) == renew_within_duration_step(
                old(self)@,
                lease_id@,
                now_unix_ms,
                new_expires_at_unix_ms,
                new_renew_after_unix_ms,
            ),
    {
        match self.find(lease_id) {
            None => Err(LeaseStoreError::NotFound),
            Some(i) => {
                let stored = self.leases[i].copied();
                if let Some(revoked_at_unix_ms) = stored.revoked_at_unix_ms {
                    return Err(LeaseStoreError::Revoked { revoked_at_unix_ms });
                }
                if stored.expires_at_unix_ms <= now_unix_ms {
                    return Err(LeaseStoreError::Expired { expires_at_unix_ms: stored.expires_at_unix_ms });
                }
                if stored.is_max_duration_exceeded(now_unix_ms) {
                    return Ok(RenewDecision::MaxDurationExceeded(stored));
                }
                let mut renewed = stored;
                renewed.expires_at_unix_ms = new_expires_at_unix_ms;
                renewed.renew_after_unix_ms = new_renew_after_unix_ms;
                proof {
                    lemma_lease_map_update(self.leases@, i as int, renewed);
                }
                self.leases.set(i, renewed.copied());
                Ok(RenewDecision::Renewed(renewed))
            },
        }
    }
}

/// The first identity field in which `candidate` differs from `stored`.
fn check_identity_conflict(stored: &StoredLease, candidate: &StoredLease) -> (r: Option<LeaseStoreError>)
    ensures
        r == identity_conflict(*stored, *candidate),
{
    if stored.job_id != candidate.job_id {
        return Some(
            LeaseStoreError::IdentityConflict {
                field: "job_id",
                stored: copy_string(&stored.job_id),
                requested: copy_string(&candidate.job_id),
            },
        );
    }
    if stored.attempt_id != candidate.attempt_id {
        return Some(
            LeaseStoreError::IdentityConflict {
                field: "attempt_id",
                stored: copy_string(&stored.attempt_id),
                requested: copy_string(&candidate.attempt_id),
            },
        );
    }
    if stored.holder_node_id != candidate.holder_node_id {
        return Some(
            LeaseStoreError::IdentityConflict {
                field: "holder_node_id",
                stored: copy_string(&stored.holder_node_id),
                requested: copy_string(&candidate.holder_node_id),
            },
        );
    }
    if stored.issuing_coordinator_id != candidate.issuing_coordinator_id {
        return Some(
            LeaseStoreError::IdentityConflict {
                field: "issuing_coordinator_id",
                stored: copy_string(&stored.issuing_coordinator_id),
                requested: copy_string(&candidate.issuing_coordinator_id),
            },
        );
    }
    None
}

/// One stored lease row: identity columns as text, numbers as eight
/// big-endian bytes each.
#[derive(Debug, Clone, PartialEq, Eq)]
pub struct RawLeaseRow {
    pub lease_id: String,
    pub job_id: String,
    pub attempt_id: String,
    pub holder_node_id: String,
    pub fence_epoch: Vec<u8>,
    pub expires_at_unix_ms: Vec<u8>,
    pub issuing_coordinator_id: String,
    pub coordinator_term: Vec<u8>,
    pub issued_at_unix_ms: Vec<u8>,
    pub renew_after_unix_ms: Vec<u8>,
    pub max_total_duration_seconds: Vec<u8>,
    pub revoked_at_unix_ms: Option<Vec<u8>>,
}

pub open spec fn lease_u64(b: Seq<u8>) -> Option<u64> {
    if b.len() == 8 {
        Some(crate::job_store::be_value(b) as u64)
    } else {
        None
    }
}

/// What a lease row reads as: every number column holds exactly eight
/// bytes (an absent revocation stays absent); anything else is `None`.
pub open spec fn lease_of_row(raw: RawLeaseRow) -> Option<StoredLease> {
    let fe = lease_u64(raw.fence_epoch@);
    let ex = lease_u64(raw.expires_at_unix_ms@);
    let ct = lease_u64(raw.coordinator_term@);
    let ia = lease_u64(raw.issued_at_unix_ms@);
    let ra = lease_u64(raw.renew_after_unix_ms@);
    let md = lease_u64(raw.max_total_duration_seconds@);
    let rv = match raw.revoked_at_unix_ms {
        None => Some(None),
        Some(b) => match lease_u64(b@) {
            Some(v) => Some(Some(v)),
            None => None,
        },
    };
    if fe is None || ex is None || ct is None || ia is None || ra is None || md is None || rv is None {
        None
    } else {
        Some(
            StoredLease {
                lease_id: raw.lease_id,
                job_id: raw.job_id,
                attempt_id: raw.attempt_id,
                holder_node_id: raw.holder_node_id,
                fence_epoch: fe->0,
                expires_at_unix_ms: ex->0,
                issuing_coordinator_id: raw.issuing_coordinator_id,
                coordinator_term: ct->0,
                issued_at_unix_ms: ia->0,
                renew_after_unix_ms: ra->0,
                max_total_duration_seconds: md->0,
                revoked_at_unix_ms: rv->0,
            },
        )
    }
}

fn lease_field(bytes: &Vec<u8>, field: &str) -> (r: Result<u64, LeaseStoreError>)
    ensures
        match lease_u64(bytes@) {
            Some(v) => r == Ok::<u64, LeaseStoreError>(v),
            None => r matches Err(LeaseStoreError::Io(_)),
        },
{
    match crate::job_store::decode_u64(bytes.as_slice(), field) {
        Ok(v) => Ok(v),
        Err(_) => {
            let mut e = String::from_str(field);
            push_str(&mut e, " is not eight bytes: the store is corrupt");
            Err(LeaseStoreError::Io(e))
        },
    }
}

impl RawLeaseRow {
    /// Reads the row as a lease (see `lease_of_row`); a number column of
    /// another width is a storage failure, never read as zero.
    pub fn into_stored(self) -> (r: Result<StoredLease, LeaseStoreError>)
        ensures
            match lease_of_row(self) {
                Some(l) => r == Ok::<StoredLease, LeaseStoreError>(l),
                None => r matches Err(LeaseStoreError::Io(_)),
            },
    {
        let fence_epoch = lease_field(&self.fence_epoch, "fence_epoch")?;
        let expires_at_unix_ms = lease_field(&self.expires_at_unix_ms, "expires_at_unix_ms")?;
        let coordinator_term = lease_field(&self.coordinator_term, "coordinator_term")?;
        let issued_at_unix_ms = lease_field(&self.issued_at_unix_ms, "issued_at_unix_ms")?;
        let renew_after_unix_ms = lease_field(&self.renew_after_unix_ms, "renew_after_unix_ms")?;
        let max_total_duration_seconds = lease_field(&self.max_total_duration_seconds, "max_total_duration_seconds")?;
        let revoked_at_unix_ms = match &self.revoked_at_unix_ms {
            None => None,
            Some(b) => Some(lease_field(b, "revoked_at_unix_ms")?),
        };
        Ok(
            StoredLease {
                lease_id: self.lease_id,
                job_id: self.job_id,
                attempt_id: self.attempt_id,
                holder_node_id: self.holder_node_id,
                fence_epoch,
                expires_at_unix_ms,
                issuing_coordinator_id: self.issuing_coordinator_id,
                coordinator_term,
                issued_at_unix_ms,
                renew_after_unix_ms,
                max_total_duration_seconds,
                revoked_at_unix_ms,
            },
        )
    }
}

impl StoredLease {
    /// The row this lease is written as.
    pub fn to_row(&self) -> (r: RawLeaseRow)
        ensures
            r.lease_id@ == self.lease_id@,
            r.job_id@ == self.job_id@,
            r.attempt_id@ == self.attempt_id@,
            r.holder_node_id@ == self.holder_node_id@,
            r.issuing_coordinator_id@ == self.issuing_coordinator_id@,
            r.fence_epoch@ == crate::job_store::be_bytes(self.fence_epoch as nat, 8),
            r.expires_at_unix_ms@ == crate::job_store::be_bytes(self.expires_at_unix_ms as nat, 8),
            r.coordinator_term@ == crate::job_store::be_bytes(self.coordinator_term as nat, 8),
            r.issued_at_unix_ms@ == crate::job_store::be_bytes(self.issued_at_unix_ms as nat, 8),
            r.renew_after_unix_ms@ == crate::job_store::be_bytes(self.renew_after_unix_ms as nat, 8),
            r.max_total_duration_seconds@ == crate::job_store::be_bytes(self.max_total_duration_seconds as nat, 8),
            match self.revoked_at_unix_ms {
                None => r.revoked_at_unix_ms is None,
                Some(v) => r.revoked_at_unix_ms matches Some(b) && b@ == crate::job_store::be_bytes(v as nat, 8),
            },
    {
        RawLeaseRow {
            lease_id: crate::text::copy_string(&self.lease_id),
            job_id: crate::text::copy_string(&self.job_id),
            attempt_id: crate::text::copy_string(&self.attempt_id),
            holder_node_id: crate::text::copy_string(&self.holder_node_id),
            fence_epoch: crate::job_store::encode_u64(self.fence_epoch),
            expires_at_unix_ms: crate::job_store::encode_u64(self.expires_at_unix_ms),
            issuing_coordinator_id: crate::text::copy_string(&self.issuing_coordinator_id),
            coordinator_term: crate::job_store::encode_u64(self.coordinator_term),
            issued_at_unix_ms: crate::job_store::encode_u64(self.issued_at_unix_ms),
            renew_after_unix_ms: crate::job_store::encode_u64(self.renew_after_unix_ms),
            max_total_duration_seconds: crate::job_store::encode_u64(self.max_total_duration_seconds),
            revoked_at_unix_ms: match self.revoked_at_unix_ms {
                None => None,
                Some(v) => Some(crate::job_store::encode_u64(v)),
            },
        }
    }
}

proof fn lemma_lease_u64(v: u64)
    ensures
        lease_u64(crate::job_store::be_bytes(v as nat, 8)) == Some(v),
{
    crate::job_store::lemma_pow256_8();
    crate::job_store::lemma_be_round_trip(v as nat, 8);
}

/// A lease reads back from the row it is written as, `u64::MAX` fields
/// included.
pub proof fn law_lease_row_round_trip(l: StoredLease, raw: RawLeaseRow)
    requires
        raw.lease_id == l.lease_id,
        raw.job_id == l.job_id,
        raw.attempt_id == l.attempt_id,
        raw.holder_node_id == l.holder_node_id,
        raw.issuing_coordinator_id == l.issuing_coordinator_id,
        raw.fence_epoch@ == crate::job_store::be_bytes(l.fence_epoch as nat, 8),
        raw.expires_at_unix_ms@ == crate::job_store::be_bytes(l.expires_at_unix_ms as nat, 8),
        raw.coordinator_term@ == crate::job_store::be_bytes(l.coordinator_term as nat, 8),
        raw.issued_at_unix_ms@ == crate::job_store::be_bytes(l.issued_at_unix_ms as nat, 8),
        raw.renew_after_unix_ms@ == crate::job_store::be_bytes(l.renew_after_unix_ms as nat, 8),
        raw.max_total_duration_seconds@ == crate::job_store::be_bytes(l.max_total_duration_seconds as nat, 8),
        match l.revoked_at_unix_ms {
            None => raw.revoked_at_unix_ms is None,
            Some(v) => raw.revoked_at_unix_ms matches Some(b) && b@ == crate::job_store::be_bytes(v as nat, 8),
        },
    ensures
        lease_of_row(raw) == Some(l),
{
    lemma_lease_u64(l.fence_epoch);
    lemma_lease_u64(l.expires_at_unix_ms);
    lemma_lease_u64(l.coordinator_term);
    lemma_lease_u64(l.issued_at_unix_ms);
    lemma_lease_u64(l.renew_after_unix_ms);
    lemma_lease_u64(l.max_total_duration_seconds);
    if let Some(v) = l.revoked_at_unix_ms {
        lemma_lease_u64(v);
    }
}

} // verus!
