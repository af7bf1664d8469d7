//! Failover: the work of a lost node goes back along the normative paths.
//!
//! A Job is lost when it is STAGING or RUNNING, its latest attempt has not
//! ended, and that attempt's lease expired more than the grace period ago.
//! STAGING goes back to the queue; RUNNING goes back when a committed
//! checkpoint can be trusted and fails otherwise. The old lease is revoked in
//! the same step, so a late renewal cannot revive it. The old node is not
//! stopped (that cannot be done from here) and its reservation is only marked.
use vstd::prelude::*;

use crate::attempt_state::{attempt_finished, is_attempt_finished, AttemptState};
use crate::job_store::{
    node_lost_step, opt_str, preempt_step, read_job, state_name, CoordinatorJobStore,
    JobState, JobView, StoredJob,
};
use crate::lease_store::{mark_revoked_step, CoordinatorLeaseStore};
use crate::attempt_report_store::StoredAttempt;
use crate::text::{
    blank, copy_string, decimal, is_blank, lemma_lex_lt_transitive, lex_lt, push_decimal, push_str, refuse,
    starts_with, str_eq, str_lt,
};

verus! {

/// How failover judges a lost node; there are no defaults, the caller
/// decides.
#[derive(Debug, Clone, PartialEq, Eq)]
pub struct FailoverPolicy {
    /// How long after lease expiry a node still counts as alive. A short one
    /// takes work away from a node that was only briefly cut off.
    pub grace_ms: u64,
    /// The shared checkpoint storage. Without one, running work has no
    /// checkpoint to resume from and fails.
    pub shared_checkpoint_root: Option<String>,
    /// The pool node keys (device id and public key) that checkpoint
    /// producer signatures are verified with.
    pub producer_keys: Vec<(String, [u8; 32])>,
}

/// What failover did to one Job.
#[derive(Debug, Clone, PartialEq, Eq)]
pub enum FailoverOutcome {
    Requeued {
        job_id: String,
        lost_attempt_id: String,
        lost_node_id: String,
        was_running: bool,
        resume_checkpoint_id: Option<String>,
        resume_step: Option<u64>,
    },
    FailedNoCheckpoint { job_id: String, lost_attempt_id: String, lost_node_id: String },
}

pub open spec fn bool_text(b: bool) -> Seq<char> {
    if b {
        "true"@
    } else {
        "false"@
    }
}

/// The log line of an outcome.
pub open spec fn outcome_line(o: FailoverOutcome) -> Seq<char> {
    match o {
        FailoverOutcome::Requeued {
            job_id,
            lost_attempt_id,
            lost_node_id,
            was_running,
            resume_checkpoint_id,
            resume_step,
        } => "FAILOVER_REQUEUED job_id="@ + job_id@ + " lost_attempt="@ + lost_attempt_id@ + " lost_node="@
            + lost_node_id@ + " was_running="@ + bool_text(was_running) + " resume_checkpoint="@
            + match resume_checkpoint_id {
            Some(c) => c@,
            None => "-"@,
        } + " resume_step="@ + match resume_step {
            Some(s) => decimal(s as nat),
            None => "-"@,
        },
        FailoverOutcome::FailedNoCheckpoint { job_id, lost_attempt_id, lost_node_id } =>
            "FAILOVER_FAILED job_id="@ + job_id@ + " lost_attempt="@ + lost_attempt_id@ + " lost_node="@
            + lost_node_id@ + " reason=NO_COMMITTED_CHECKPOINT"@,
    }
}

impl FailoverOutcome {
    /// One log line.
    pub fn line(&self) -> (r: String)
        ensures
            r@ == outcome_line(*self),
    {
        match self {
            FailoverOutcome::Requeued {
                job_id,
                lost_attempt_id,
                lost_node_id,
                was_running,
                resume_checkpoint_id,
                resume_step,
            } => {
                let mut r = String::from_str("FAILOVER_REQUEUED job_id=");
                push_str(&mut r, job_id.as_str());
                push_str(&mut r, " lost_attempt=");
                push_str(&mut r, lost_attempt_id.as_str());
                push_str(&mut r, " lost_node=");
                push_str(&mut r, lost_node_id.as_str());
                push_str(&mut r, " was_running=");
                push_str(&mut r, if *was_running { "true" } else { "false" });
                push_str(&mut r, " resume_checkpoint=");
                match resume_checkpoint_id {
                    Some(c) => push_str(&mut r, c.as_str()),
                    None => push_str(&mut r, "-"),
                }
                push_str(&mut r, " resume_step=");
                match resume_step {
                    Some(s) => push_decimal(&mut r, *s),
                    None => push_str(&mut r, "-"),
                }
                r
            },
            FailoverOutcome::FailedNoCheckpoint { job_id, lost_attempt_id, lost_node_id } => {
                let mut r = String::from_str("FAILOVER_FAILED job_id=");
                push_str(&mut r, job_id.as_str());
                push_str(&mut r, " lost_attempt=");
                push_str(&mut r, lost_attempt_id.as_str());
                push_str(&mut r, " lost_node=");
                push_str(&mut r, lost_node_id.as_str());
                push_str(&mut r, " reason=NO_COMMITTED_CHECKPOINT");
                r
            },
        }
    }
}

/// The attempt failover looks at: the Job's latest one.
#[derive(Debug, Clone, PartialEq, Eq)]
pub struct LatestAttempt {
    pub attempt_id: String,
    pub state: AttemptState,
    pub lease_id: String,
    pub node_ids: Vec<String>,
}

/// The lease has been expired for longer than the grace period.
pub open spec fn past_grace(expires_at_unix_ms: u64, grace_ms: u64, now_unix_ms: u64) -> bool {
    now_unix_ms > if expires_at_unix_ms + grace_ms > u64::MAX {
        u64::MAX as int
    } else {
        expires_at_unix_ms + grace_ms
    }
}

pub fn is_past_grace(expires_at_unix_ms: u64, grace_ms: u64, now_unix_ms: u64) -> (r: bool)
    ensures
        r == past_grace(expires_at_unix_ms, grace_ms, now_unix_ms),
{
    let limit = if expires_at_unix_ms > u64::MAX - grace_ms {
        u64::MAX
    } else {
        expires_at_unix_ms + grace_ms
    };
    now_unix_ms > limit
}

/// A checkpoint a failover would resume from, already verified and chosen.
#[derive(Debug, Clone, PartialEq, Eq)]
pub struct ResumePoint {
    pub checkpoint_id: String,
    pub step: u64,
    pub body: Vec<u8>,
}

/// The node an attempt ran on (the first listed; empty when none is).
pub open spec fn lost_node(a: LatestAttempt) -> Seq<char> {
    if a.node_ids@.len() > 0 {
        a.node_ids@[0]@
    } else {
        Seq::empty()
    }
}

/// The resume point failover uses: only a RUNNING Job resumes; a STAGING one
/// never ran.
pub open spec fn used_resume(j: JobView, resume: Option<ResumePoint>) -> Option<ResumePoint> {
    if j.state == JobState::Running {
        resume
    } else {
        None
    }
}

pub open spec fn resume_body(r: Option<ResumePoint>) -> Option<Seq<u8>> {
    match r {
        Some(p) => Some(p.body@),
        None => None,
    }
}

/// Takes one Job over after its node was lost: the Job goes back to the queue
/// or fails (see `node_lost_step`), and the lost attempt's lease is revoked.
/// `Ok(None)`: the Job is not lost (not stored, not in a run state, no
/// latest attempt, that attempt ended, or its lease is still within grace).
/// A missing lease of a lost attempt is an error; nothing is changed then.
pub fn fail_over_job(
    jobs: &mut CoordinatorJobStore,
    leases: &mut CoordinatorLeaseStore,
    job_id: &str,
    latest: Option<&LatestAttempt>,
    grace_ms: u64,
    now_unix_ms: u64,
    resume: Option<ResumePoint>,
) -> (r: Result<Option<FailoverOutcome>, String>)
    requires
        old(jobs).wf(),
        old(leases).wf(),
    ensures
        final(jobs).wf(),
        final(leases).wf(),
        ({
            let jv = old(jobs)@;
            let lv = old(leases)@;
            match read_job(jv.jobs, job_id@) {
                Err(_) => r is Err && final(jobs)@ == jv && final(leases)@ == lv,
                Ok(None) => r == Ok::<Option<FailoverOutcome>, String>(None) && final(jobs)@ == jv
                    && final(leases)@ == lv,
                Ok(Some(j)) => match latest {
                    None => r == Ok::<Option<FailoverOutcome>, String>(None) && final(jobs)@ == jv
                        && final(leases)@ == lv,
                    Some(a) => if !(j.state == JobState::Staging || j.state == JobState::Running)
                        || attempt_finished(a.state) {
                        r == Ok::<Option<FailoverOutcome>, String>(None) && final(jobs)@ == jv
                            && final(leases)@ == lv
                    } else if !lv.contains_key(a.lease_id@) {
                        r is Err && final(jobs)@ == jv && final(leases)@ == lv
                    } else if !past_grace(lv[a.lease_id@].expires_at_unix_ms, grace_ms, now_unix_ms) {
                        r == Ok::<Option<FailoverOutcome>, String>(None) && final(jobs)@ == jv
                            && final(leases)@ == lv
                    } else {
                        let (jv2, jr) = node_lost_step(
                            jv,
                            job_id@,
                            resume_body(used_resume(j, resume)),
                            now_unix_ms,
                        );
                        match jr {
                            Err(_) => r is Err && final(jobs)@ == jv && final(leases)@ == lv,
                            Ok(n) => {
                                &&& final(jobs)@ == jv2
                                &&& final(leases)@ == mark_revoked_step(lv, a.lease_id@, now_unix_ms).0
                                &&& r matches Ok(Some(o)) && (if n.state == JobState::Queued {
                                    o matches FailoverOutcome::Requeued {
                                        job_id: oj,
                                        lost_attempt_id,
                                        lost_node_id,
                                        was_running,
                                        resume_checkpoint_id,
                                        resume_step,
                                    } && oj@ == j.job_id && lost_attempt_id@ == a.attempt_id@
                                        && lost_node_id@ == lost_node(*a) && was_running == (j.state
                                        == JobState::Running) && resume_step == (match used_resume(j, resume) {
                                        Some(p) => Some(p.step),
                                        None => None,
                                    }) && (match used_resume(j, resume) {
                                        Some(p) => resume_checkpoint_id matches Some(c) && c@ == p.checkpoint_id@,
                                        None => resume_checkpoint_id is None,
                                    })
                                } else {
                                    o matches FailoverOutcome::FailedNoCheckpoint {
                                        job_id: oj,
                                        lost_attempt_id,
                                        lost_node_id,
                                    } && oj@ == j.job_id && lost_attempt_id@ == a.attempt_id@
                                        && lost_node_id@ == lost_node(*a)
                                })
                            },
                        }
                    },
                },
            }
        }),
{
    let job: StoredJob = match jobs.get(job_id) {
        Err(e) => {
            return Err(String::from_str("failover could not read the job"));
        },
        Ok(None) => {
            return Ok(None);
        },
        Ok(Some(j)) => j,
    };
    let attempt = match latest {
        None => {
            return Ok(None);
        },
        Some(a) => a,
    };
    if !(job.state == JobState::Staging || job.state == JobState::Running) || is_attempt_finished(
        attempt.state,
    ) {
        return Ok(None);
    }
    let lease = match leases.get(attempt.lease_id.as_str()) {
        Ok(Some(l)) => l,
        _ => {
            let mut e = String::from_str("the lease ");
            push_str(&mut e, attempt.lease_id.as_str());
            push_str(&mut e, " of attempt ");
            push_str(&mut e, attempt.attempt_id.as_str());
            push_str(&mut e, " is missing");
            return Err(e);
        },
    };
    if !is_past_grace(lease.expires_at_unix_ms, grace_ms, now_unix_ms) {
        return Ok(None);
    }
    let was_running = job.state == JobState::Running;
    let used = if was_running {
        resume
    } else {
        None
    };
    let body = match &used {
        Some(p) => Some(crate::job_store::copy_bytes(&p.body)),
        None => None,
    };
    let updated = match jobs.requeue_after_node_lost(job_id, body, now_unix_ms) {
        Ok(u) => u,
        Err(_) => {
            return Err(String::from_str("failover could not move the job"));
        },
    };
    let _ = leases.mark_revoked(attempt.lease_id.as_str(), now_unix_ms);
    let lost_node_id = if attempt.node_ids.len() > 0 {
        copy_string(&attempt.node_ids[0])
    } else {
        String::new()
    };
    if updated.state == JobState::Queued {
        Ok(
            Some(
                FailoverOutcome::Requeued {
                    job_id: copy_string(&job.job_id),
                    lost_attempt_id: copy_string(&attempt.attempt_id),
                    lost_node_id,
                    was_running,
                    resume_checkpoint_id: match &used {
                        Some(p) => Some(copy_string(&p.checkpoint_id)),
                        None => None,
                    },
                    resume_step: match &used {
                        Some(p) => Some(p.step),
                        None => None,
                    },
                },
            ),
        )
    } else {
        Ok(
            Some(
                FailoverOutcome::FailedNoCheckpoint {
                    job_id: copy_string(&job.job_id),
                    lost_attempt_id: copy_string(&attempt.attempt_id),
                    lost_node_id,
                },
            ),
        )
    }
}

/// The signed fields of a checkpoint manifest that failover checks.
#[derive(Debug, Clone, PartialEq, Eq)]
pub struct CheckpointFacts {
    pub checkpoint_id: String,
    pub job_id: String,
    pub attempt_id: String,
    pub fence_epoch: u64,
    pub step: u64,
    pub producer_node_id: String,
}

/// The stored facts of the attempt a checkpoint names.
#[derive(Debug, Clone, PartialEq, Eq)]
pub struct AttemptFacts {
    pub job_id: String,
    pub fence_epoch: u64,
    pub node_ids: Vec<String>,
}

/// One checkpoint found in the shared store, with what the checks found:
/// whether it decoded, whether the producer signature verified, which stored
/// attempt it names, and whether the files on disk hash to its manifest.
#[derive(Debug, Clone, PartialEq, Eq)]
pub struct CheckpointCandidate {
    /// The name the shared store lists it under.
    pub checkpoint_id: String,
    pub manifest: Option<CheckpointFacts>,
    pub signature_ok: bool,
    pub attempt: Option<AttemptFacts>,
    /// Why the files on disk do not match the manifest; `None` when they do.
    pub on_disk_mismatch: Option<String>,
    pub body: Vec<u8>,
}

pub open spec fn lists_name(v: Seq<String>, s: Seq<char>) -> bool {
    exists|i: int| 0 <= i < v.len() && (#[trigger] v[i])@ == s
}

/// Why a candidate is not trusted, in the order the checks run; `None` when
/// every check passes: it decoded, carries the name it is listed under, its
/// producer signature verified, it belongs to this Job, it was made by a
/// known attempt of this Job with the signed fence and one of its nodes, and
/// its files match.
pub open spec fn skip_reason(c: CheckpointCandidate, job_id: Seq<char>) -> Option<Seq<char>> {
    match c.manifest {
        None => Some("undecodable"@),
        Some(m) => if m.checkpoint_id@ != c.checkpoint_id@ {
            Some("checkpoint_id differs from the listed name"@)
        } else if !c.signature_ok {
            Some("producer signature does not verify"@)
        } else if m.job_id@ != job_id {
            Some("a checkpoint of another job"@)
        } else if c.attempt is None {
            Some("made by an unknown attempt"@)
        } else if c.attempt->0.job_id@ != job_id || c.attempt->0.fence_epoch != m.fence_epoch
            || !lists_name(c.attempt->0.node_ids@, m.producer_node_id@) {
            Some("the signed fence or node differs from the attempt"@)
        } else if c.on_disk_mismatch is Some {
            Some(c.on_disk_mismatch->0@)
        } else {
            None
        },
    }
}

/// `(fence, step)` of `a` is greater than that of `b`.
pub open spec fn later_checkpoint(a: CheckpointFacts, b: CheckpointFacts) -> bool {
    a.fence_epoch > b.fence_epoch || (a.fence_epoch == b.fence_epoch && a.step > b.step)
}

/// Index `i` is the resume point: trusted, no trusted candidate is later, and
/// none before it is as late (the first of equals wins).
pub open spec fn is_best(cs: Seq<CheckpointCandidate>, job_id: Seq<char>, i: int) -> bool {
    &&& 0 <= i < cs.len()
    &&& skip_reason(cs[i], job_id) is None
    &&& forall|k: int|
        0 <= k < cs.len() && skip_reason(#[trigger] cs[k], job_id) is None ==> !later_checkpoint(
            cs[k].manifest->0,
            cs[i].manifest->0,
        )
    &&& forall|k: int|
        0 <= k < i && skip_reason(#[trigger] cs[k], job_id) is None ==> later_checkpoint(
            cs[i].manifest->0,
            cs[k].manifest->0,
        )
}

fn contains_node(nodes: &Vec<String>, node: &str) -> (r: bool)
    ensures
        r == lists_name(nodes@, node@),
{
    let mut i: usize = 0;
    while i < nodes.len()
        invariant
            i <= nodes@.len(),
            forall|k: int| 0 <= k < i ==> (#[trigger] nodes@[k])@ != node@,
        decreases nodes@.len() - i,
    {
        if str_eq(nodes[i].as_str(), node) {
            return true;
        }
        i = i + 1;
    }
    false
}

fn check_candidate(c: &CheckpointCandidate, job_id: &str) -> (r: Option<String>)
    ensures
        match skip_reason(*c, job_id@) {
            None => r is None,
            Some(why) => r matches Some(s) && s@ == why,
        },
{
    let m = match &c.manifest {
        None => {
            return Some(String::from_str("undecodable"));
        },
        Some(m) => m,
    };
    if !str_eq(m.checkpoint_id.as_str(), c.checkpoint_id.as_str()) {
        return Some(String::from_str("checkpoint_id differs from the listed name"));
    }
    if !c.signature_ok {
        return Some(String::from_str("producer signature does not verify"));
    }
    if !str_eq(m.job_id.as_str(), job_id) {
        return Some(String::from_str("a checkpoint of another job"));
    }
    let a = match &c.attempt {
        None => {
            return Some(String::from_str("made by an unknown attempt"));
        },
        Some(a) => a,
    };
    if !str_eq(a.job_id.as_str(), job_id) || a.fence_epoch != m.fence_epoch || !contains_node(
        &a.node_ids,
        m.producer_node_id.as_str(),
    ) {
        return Some(String::from_str("the signed fence or node differs from the attempt"));
    }
    match &c.on_disk_mismatch {
        Some(why) => Some(copy_string(why)),
        None => None,
    }
}

/// The skip note of a candidate.
pub open spec fn skip_note(job_id: Seq<char>, checkpoint_id: Seq<char>, why: Seq<char>) -> Seq<char> {
    "FAILOVER_CHECKPOINT_SKIPPED job_id="@ + job_id + " checkpoint_id="@ + checkpoint_id + " reason="@ + why
}

/// The skip notes of the untrusted candidates among the first `n`, in order.
pub open spec fn skip_notes(cs: Seq<CheckpointCandidate>, job_id: Seq<char>, n: int) -> Seq<Seq<char>>
    decreases n,
{
    if n <= 0 {
        Seq::empty()
    } else {
        let prev = skip_notes(cs, job_id, n - 1);
        match skip_reason(cs[n - 1], job_id) {
            Some(why) => prev.push(skip_note(job_id, cs[n - 1].checkpoint_id@, why)),
            None => prev,
        }
    }
}

/// `added` is what was appended to `before` to make `after`.
pub open spec fn appended(before: Seq<String>, after: Seq<String>, added: Seq<Seq<char>>) -> bool {
    &&& after.len() == before.len() + added.len()
    &&& after.subrange(0, before.len() as int) == before
    &&& forall|k: int| 0 <= k < added.len() ==> (#[trigger] after[before.len() + k])@ == added[k]
}

/// Chooses the checkpoint to resume from: among the candidates that pass
/// every check, the one with the greatest `(fence, step)`, the first of equal
/// ones. Each candidate that is not trusted leaves one note with its reason;
/// none is dropped silently.
pub fn choose_resume_point(candidates: &Vec<CheckpointCandidate>, job_id: &str, notes: &mut Vec<String>) -> (r:
    Option<usize>)
    ensures
        match r {
            Some(i) => is_best(candidates@, job_id@, i as int),
            None => forall|k: int|
                0 <= k < candidates@.len() ==> skip_reason(#[trigger] candidates@[k], job_id@) is Some,
        },
        appended(old(notes)@, final(notes)@, skip_notes(candidates@, job_id@, candidates@.len() as int)),
{
    let ghost start = notes@;
    assert(notes@.subrange(0, start.len() as int) =~= start);
    let mut best: Option<usize> = None;
    let mut i: usize = 0;
    while i < candidates.len()
        invariant
            i <= candidates@.len(),
            appended(start, notes@, skip_notes(candidates@, job_id@, i as int)),
            match best {
                Some(b) => b < i && is_best(candidates@.subrange(0, i as int), job_id@, b as int),
                None => forall|k: int| 0 <= k < i ==> skip_reason(#[trigger] candidates@[k], job_id@) is Some,
            },
        decreases candidates@.len() - i,
    {
        let c = &candidates[i];
        let ghost before = notes@;
        match check_candidate(c, job_id) {
            Some(why) => {
                let mut note = String::from_str("FAILOVER_CHECKPOINT_SKIPPED job_id=");
                push_str(&mut note, job_id);
                push_str(&mut note, " checkpoint_id=");
                push_str(&mut note, c.checkpoint_id.as_str());
                push_str(&mut note, " reason=");
                push_str(&mut note, why.as_str());
                notes.push(note);
                proof {
                    let added = skip_notes(candidates@, job_id@, i as int);
                    let added2 = skip_notes(candidates@, job_id@, i + 1);
                    assert(added2 == added.push(skip_note(job_id@, c.checkpoint_id@, why@)));
                    assert(notes@.subrange(0, start.len() as int) =~= before.subrange(0, start.len() as int));
                    assert forall|k: int| 0 <= k < added2.len() implies (#[trigger] notes@[start.len() + k])@ == added2[k] by {
                        if k < added.len() {
                            assert(notes@[start.len() + k] == before[start.len() + k]);
                        }
                    }
                    let s = candidates@.subrange(0, i + 1);
                    match best {
                        Some(b) => {
                            let p = candidates@.subrange(0, i as int);
                            assert forall|k: int| 0 <= k < s.len() && skip_reason(#[trigger] s[k], job_id@) is None implies !later_checkpoint(
                                s[k].manifest->0,
                                s[b as int].manifest->0,
                            ) by {
                                assert(k < i);
                                assert(s[k] == p[k]);
                            }
                            assert forall|k: int| 0 <= k < b && skip_reason(#[trigger] s[k], job_id@) is None implies later_checkpoint(
                                s[b as int].manifest->0,
                                s[k].manifest->0,
                            ) by {
                                assert(s[k] == p[k]);
                            }
                        },
                        None => {},
                    }
                }
            },
            None => {
                let m = match &c.manifest {
                    Some(m) => m,
                    None => {
                        return best;
                    },
                };
                let better = match best {
                    None => true,
                    Some(b) => {
                        let bm = match &candidates[b].manifest {
                            Some(x) => x,
                            None => {
                                return best;
                            },
                        };
                        m.fence_epoch > bm.fence_epoch || (m.fence_epoch == bm.fence_epoch && m.step
                            > bm.step)
                    },
                };
                proof {
                    let s = candidates@.subrange(0, i + 1);
                    let p = candidates@.subrange(0, i as int);
                    if better {
                        match best {
                            Some(b) => {
                                assert forall|k: int| 0 <= k < s.len() && skip_reason(#[trigger] s[k], job_id@) is None implies !later_checkpoint(
                                    s[k].manifest->0,
                                    s[i as int].manifest->0,
                                ) by {
                                    if k < i {
                                        assert(s[k] == p[k]);
                                        assert(!later_checkpoint(p[k].manifest->0, p[b as int].manifest->0));
                                    }
                                }
                                assert forall|k: int| 0 <= k < i && skip_reason(#[trigger] s[k], job_id@) is None implies later_checkpoint(
                                    s[i as int].manifest->0,
                                    s[k].manifest->0,
                                ) by {
                                    assert(s[k] == p[k]);
                                    assert(!later_checkpoint(p[k].manifest->0, p[b as int].manifest->0));
                                }
                            },
                            None => {
                                assert forall|k: int| 0 <= k < s.len() && skip_reason(#[trigger] s[k], job_id@) is None implies k == i by {
                                    if k < i {
                                        assert(s[k] == candidates@[k]);
                                    }
                                }
                            },
                        }
                    } else {
                        let b = best->0;
                        assert forall|k: int| 0 <= k < s.len() && skip_reason(#[trigger] s[k], job_id@) is None implies !later_checkpoint(
                            s[k].manifest->0,
                            s[b as int].manifest->0,
                        ) by {
                            if k < i {
                                assert(s[k] == p[k]);
                            }
                        }
                        assert forall|k: int| 0 <= k < b && skip_reason(#[trigger] s[k], job_id@) is None implies later_checkpoint(
                            s[b as int].manifest->0,
                            s[k].manifest->0,
                        ) by {
                            assert(s[k] == p[k]);
                        }
                    }
                }
                if better {
                    best = Some(i);
                }
            },
        }
        i = i + 1;
    }
    proof {
        assert(candidates@.subrange(0, candidates@.len() as int) =~= candidates@);
    }
    best
}

/// Attempt `a` comes after `b` in the order that names a Job's latest
/// attempt: a higher fencing epoch, and on the same epoch a greater id.
pub open spec fn attempt_after(a: StoredAttempt, b: StoredAttempt) -> bool {
    a.fence_epoch > b.fence_epoch || (a.fence_epoch == b.fence_epoch && lex_lt(b.attempt_id@, a.attempt_id@))
}

/// `i` is a latest attempt of the Job: no attempt of that Job comes after it.
pub open spec fn is_latest_attempt(s: Seq<StoredAttempt>, job_id: Seq<char>, i: int) -> bool {
    &&& 0 <= i < s.len()
    &&& s[i].job_id@ == job_id
    &&& forall|j: int| 0 <= j < s.len() && (#[trigger] s[j]).job_id@ == job_id ==> !attempt_after(s[j], s[i])
}

proof fn lemma_attempt_after_transitive(a: StoredAttempt, b: StoredAttempt, c: StoredAttempt)
    requires
        attempt_after(a, b),
        attempt_after(b, c),
    ensures
        attempt_after(a, c),
{
    if a.fence_epoch == b.fence_epoch && b.fence_epoch == c.fence_epoch {
        lemma_lex_lt_transitive(c.attempt_id@, b.attempt_id@, a.attempt_id@);
    }
}

fn is_attempt_after(a: &StoredAttempt, b: &StoredAttempt) -> (r: bool)
    ensures
        r == attempt_after(*a, *b),
{
    a.fence_epoch > b.fence_epoch || (a.fence_epoch == b.fence_epoch && str_lt(
        b.attempt_id.as_str(),
        a.attempt_id.as_str(),
    ))
}

/// The Job's latest attempt among the stored ones (highest fencing epoch,
/// then greatest id): the attempt the Job currently runs with. `None` when
/// the Job has no attempt.
pub fn latest_attempt(attempts: &Vec<StoredAttempt>, job_id: &str) -> (r: Option<usize>)
    ensures
        r is None <==> forall|j: int| 0 <= j < attempts@.len() ==> (#[trigger] attempts@[j]).job_id@ != job_id@,
        r matches Some(i) ==> is_latest_attempt(attempts@, job_id@, i as int),
{
    let mut best: Option<usize> = None;
    let mut k: usize = 0;
    while k < attempts.len()
        invariant
            k <= attempts@.len(),
            best is None <==> forall|j: int| 0 <= j < k ==> (#[trigger] attempts@[j]).job_id@ != job_id@,
            best matches Some(b) ==> b < k && attempts@[b as int].job_id@ == job_id@ && forall|j: int|
                0 <= j < k && (#[trigger] attempts@[j]).job_id@ == job_id@ ==> !attempt_after(
                    attempts@[j],
                    attempts@[b as int],
                ),
        decreases attempts@.len() - k,
    {
        if str_eq(attempts[k].job_id.as_str(), job_id) {
            let replace = match best {
                None => true,
                Some(b) => is_attempt_after(&attempts[k], &attempts[b]),
            };
            if replace {
                proof {
                    if best is Some {
                        let b = best->0 as int;
                        assert forall|j: int|
                            0 <= j < k && (#[trigger] attempts@[j]).job_id@ == job_id@ implies !attempt_after(
                            attempts@[j],
                            attempts@[k as int],
                        ) by {
                            if attempt_after(attempts@[j], attempts@[k as int]) {
                                lemma_attempt_after_transitive(attempts@[j], attempts@[k as int], attempts@[b]);
                            }
                        }
                    }
                    crate::text::lemma_lex_lt_irreflexive(attempts@[k as int].attempt_id@);
                }
                best = Some(k);
            }
        }
        k = k + 1;
    }
    best
}

/// The reservation a node holds.
#[derive(Debug, Clone, PartialEq, Eq)]
pub struct NodeReservation {
    pub node_id: String,
    pub attempt_id: String,
    pub job_id: String,
    pub selected_gpu_ids: Vec<String>,
}

/// A lost node's reservation that an operator released.
#[derive(Debug, Clone, PartialEq, Eq)]
pub struct OperatorRelease {
    pub node_id: String,
    pub attempt_id: String,
    pub job_id: String,
    pub released_gpu_ids: Vec<String>,
}

/// The Job has moved on from the reservation's attempt: a newer attempt
/// exists, or the Job is back in the queue or has ended.
pub open spec fn release_allowed(
    reservation_attempt_id: Seq<char>,
    job_state: JobState,
    latest_attempt_id: Option<Seq<char>>,
) -> bool {
    latest_attempt_id != Some(reservation_attempt_id) || job_state == JobState::Queued || job_state
        == JobState::Completed || job_state == JobState::Failed
}

/// The refusal of a release by hand, or `None` when it is allowed (see
/// `check_operator_release`).
pub open spec fn release_refusal(
    operator_statement: Seq<char>,
    node_id: Seq<char>,
    reservation: Option<NodeReservation>,
    reservation_job_state: Option<JobState>,
    latest_attempt_id: Option<Seq<char>>,
) -> Option<Seq<char>> {
    if is_blank(operator_statement) {
        Some("RELEASE_REFUSED: "@ + "the operator statement (who checked what) is blank"@)
    } else if reservation is None {
        Some("RELEASE_REFUSED: "@ + (node_id + " holds no reservation"@))
    } else if reservation_job_state is None {
        Some("RELEASE_REFUSED: "@ + ("the reservation's job "@ + reservation->0.job_id@ + " is not stored"@))
    } else if !release_allowed(reservation->0.attempt_id@, reservation_job_state->0, latest_attempt_id) {
        Some("RELEASE_REFUSED: "@ + ("the reservation of "@ + node_id + " belongs to the live attempt "@
            + reservation->0.attempt_id@ + " (job state "@ + state_name(reservation_job_state->0)
            + "); failover must take the job back first"@))
    } else {
        None
    }
}

/// Whether a person may release a lost node's reservation by hand: the
/// reason they give must not be blank, the node must
/// hold a reservation whose Job is stored, and that Job must have moved on
/// from the reservation's attempt. Releasing the reservation of an attempt
/// its Job still runs with is refused: it would free a GPU that is in use.
/// Refusals start with `RELEASE_REFUSED: `. `latest_attempt_id` is the id of
/// the Job's latest attempt (see `latest_attempt`).
pub fn check_operator_release(
    operator_statement: &str,
    node_id: &str,
    reservation: Option<&NodeReservation>,
    reservation_job_state: Option<JobState>,
    latest_attempt_id: Option<&str>,
) -> (r: Result<OperatorRelease, String>)
    ensures
        r is Ok <==> (!is_blank(operator_statement@) && reservation is Some && reservation_job_state is Some
            && release_allowed(reservation->0.attempt_id@, reservation_job_state->0, opt_str(latest_attempt_id))),
        r matches Ok(rel) ==> rel.node_id@ == node_id@ && rel.attempt_id@ == reservation->0.attempt_id@
            && rel.job_id@ == reservation->0.job_id@ && rel.released_gpu_ids@ == reservation->0.selected_gpu_ids@,
        r matches Err(m) ==> starts_with(m@, "RELEASE_REFUSED: "@),
        r matches Err(m) ==> Some(m@) == release_refusal(
            operator_statement@,
            node_id@,
            match reservation {
                Some(x) => Some(*x),
                None => None,
            },
            reservation_job_state,
            opt_str(latest_attempt_id),
        ),
{
    if blank(operator_statement) {
        return Err(refuse("RELEASE_REFUSED: ", "the operator statement (who checked what) is blank"));
    }
    let res = match reservation {
        None => {
            let mut d = String::from_str(node_id);
            push_str(&mut d, " holds no reservation");
            return Err(refuse("RELEASE_REFUSED: ", d.as_str()));
        },
        Some(r) => r,
    };
    let state = match reservation_job_state {
        None => {
            let mut d = String::from_str("the reservation's job ");
            push_str(&mut d, res.job_id.as_str());
            push_str(&mut d, " is not stored");
            return Err(refuse("RELEASE_REFUSED: ", d.as_str()));
        },
        Some(s) => s,
    };
    let superseded = match latest_attempt_id {
        Some(l) => !str_eq(l, res.attempt_id.as_str()),
        None => true,
    };
    let moved_on = state == JobState::Queued || state == JobState::Completed || state == JobState::Failed;
    if !superseded && !moved_on {
        let mut d = String::from_str("the reservation of ");
        push_str(&mut d, node_id);
        push_str(&mut d, " belongs to the live attempt ");
        push_str(&mut d, res.attempt_id.as_str());
        push_str(&mut d, " (job state ");
        push_str(&mut d, state.as_str());
        push_str(&mut d, "); failover must take the job back first");
        return Err(refuse("RELEASE_REFUSED: ", d.as_str()));
    }
    let mut gpus: Vec<String> = Vec::new();
    let mut i: usize = 0;
    while i < res.selected_gpu_ids.len()
        invariant
            i <= res.selected_gpu_ids@.len(),
            gpus@ == res.selected_gpu_ids@.take(i as int),
        decreases res.selected_gpu_ids@.len() - i,
    {
        gpus.push(copy_string(&res.selected_gpu_ids[i]));
        proof {
            assert(res.selected_gpu_ids@.take(i + 1) =~= res.selected_gpu_ids@.take(i as int).push(
                res.selected_gpu_ids@[i as int],
            ));
        }
        i = i + 1;
    }
    proof {
        assert(res.selected_gpu_ids@.take(res.selected_gpu_ids@.len() as int) =~= res.selected_gpu_ids@);
    }
    Ok(
        OperatorRelease {
            node_id: String::from_str(node_id),
            attempt_id: copy_string(&res.attempt_id),
            job_id: copy_string(&res.job_id),
            released_gpu_ids: gpus,
        },
    )
}

/// When a node counts as reclaimed by its owner: never before the last time
/// it was seen fresh, so a greeting from before the reclaim (or a clock that
/// went back) does not make it a candidate again.
pub open spec fn reclaim_time(last_fresh_unix_ms: Option<u64>, now_unix_ms: u64) -> u64 {
    match last_fresh_unix_ms {
        None => now_unix_ms,
        Some(seen) => if seen > now_unix_ms {
            seen
        } else {
            now_unix_ms
        },
    }
}

pub fn reclaimed_at(last_fresh_unix_ms: Option<u64>, now_unix_ms: u64) -> (r: u64)
    ensures
        r == reclaim_time(last_fresh_unix_ms, now_unix_ms),
        r >= now_unix_ms,
        last_fresh_unix_ms matches Some(seen) ==> r >= seen,
{
    match last_fresh_unix_ms {
        None => now_unix_ms,
        Some(seen) => if seen > now_unix_ms {
            seen
        } else {
            now_unix_ms
        },
    }
}

/// What an owner preemption recorded.
#[derive(Debug, Clone, PartialEq, Eq)]
pub struct OwnerPreemption {
    /// `OWNER_PREEMPTED job_id=.. attempt_id=.. node_id=.. resume_step=..`.
    pub line: String,
    /// The node counts as reclaimed from this time on.
    pub reclaimed_at_unix_ms: u64,
}

pub open spec fn preemption_line(job_id: Seq<char>, attempt_id: Seq<char>, node_id: Seq<char>, resume: Option<ResumePoint>) -> Seq<char> {
    "OWNER_PREEMPTED job_id="@ + job_id + " attempt_id="@ + attempt_id + " node_id="@ + node_id
        + " resume_step="@ + match resume {
        Some(p) => decimal(p.step as nat),
        None => "-"@,
    }
}

/// The owner stopped the work on a node: the Job's latest attempt on a
/// RUNNING Job pauses it (`RUNNING -> PAUSED`, see `preempt_step`), revokes
/// that attempt's lease, and marks the node reclaimed. Anything else (no such
/// Job, not RUNNING, not the latest attempt) does nothing (`None`). Without
/// the attempt's lease nothing is changed and an error is returned.
pub fn preempt_by_owner(
    jobs: &mut CoordinatorJobStore,
    leases: &mut CoordinatorLeaseStore,
    job_id: &str,
    attempt_id: &str,
    node_id: &str,
    latest_attempt_id: Option<&str>,
    attempt_lease_id: Option<&str>,
    resume: Option<ResumePoint>,
    last_fresh_unix_ms: Option<u64>,
    now_unix_ms: u64,
) -> (r: Result<Option<OwnerPreemption>, String>)
    requires
        old(jobs).wf(),
        old(leases).wf(),
    ensures
        final(jobs).wf(),
        final(leases).wf(),
        ({
            let jv = old(jobs)@;
            let lv = old(leases)@;
            match read_job(jv.jobs, job_id@) {
                Err(_) => r is Err && final(jobs)@ == jv && final(leases)@ == lv,
                Ok(None) => r == Ok::<Option<OwnerPreemption>, String>(None) && final(jobs)@ == jv
                    && final(leases)@ == lv,
                Ok(Some(j)) => if j.state != JobState::Running || opt_str(latest_attempt_id) != Some(attempt_id@) {
                    r == Ok::<Option<OwnerPreemption>, String>(None) && final(jobs)@ == jv && final(leases)@ == lv
                } else if attempt_lease_id is None {
                    r is Err && final(jobs)@ == jv && final(leases)@ == lv
                } else {
                    let (jv2, jr) = preempt_step(jv, job_id@, resume_body(resume));
                    match jr {
                        Err(_) => r is Err && final(jobs)@ == jv && final(leases)@ == lv,
                        Ok(_) => {
                            &&& final(jobs)@ == jv2
                            &&& final(leases)@ == mark_revoked_step(lv, attempt_lease_id->0@, now_unix_ms).0
                            &&& r matches Ok(Some(p)) && p.line@ == preemption_line(job_id@, attempt_id@, node_id@, resume)
                                && p.reclaimed_at_unix_ms == reclaim_time(last_fresh_unix_ms, now_unix_ms)
                        },
                    }
                },
            }
        }),
{
    let job = match jobs.get(job_id) {
        Err(_) => {
            return Err(String::from_str("owner preemption could not read the job"));
        },
        Ok(None) => {
            return Ok(None);
        },
        Ok(Some(j)) => j,
    };
    if job.state != JobState::Running {
        return Ok(None);
    }
    let is_latest = match latest_attempt_id {
        Some(l) => str_eq(l, attempt_id),
        None => false,
    };
    if !is_latest {
        return Ok(None);
    }
    let lease_id = match attempt_lease_id {
        None => {
            let mut e = String::from_str("the lease of attempt ");
            push_str(&mut e, attempt_id);
            push_str(&mut e, " is unknown");
            return Err(e);
        },
        Some(l) => l,
    };
    let body = match &resume {
        Some(p) => Some(crate::job_store::copy_bytes(&p.body)),
        None => None,
    };
    match jobs.pause_for_owner_preempt(job_id, body) {
        Ok(_) => {},
        Err(_) => {
            return Err(String::from_str("owner preemption could not pause the job"));
        },
    }
    let _ = leases.mark_revoked(lease_id, now_unix_ms);
    let mut line = String::from_str("OWNER_PREEMPTED job_id=");
    push_str(&mut line, job_id);
    push_str(&mut line, " attempt_id=");
    push_str(&mut line, attempt_id);
    push_str(&mut line, " node_id=");
    push_str(&mut line, node_id);
    push_str(&mut line, " resume_step=");
    match &resume {
        Some(p) => push_decimal(&mut line, p.step),
        None => push_str(&mut line, "-"),
    }
    Ok(Some(OwnerPreemption { line, reclaimed_at_unix_ms: reclaimed_at(last_fresh_unix_ms, now_unix_ms) }))
}

/// A reservation is never released while its attempt is the latest one of
/// a Job still staging, running or paused.
pub proof fn law_live_reservations_are_kept(
    reservation_attempt_id: Seq<char>,
    job_state: JobState,
)
    requires
        job_state == JobState::Staging || job_state == JobState::Running || job_state == JobState::Paused,
    ensures
        !release_allowed(reservation_attempt_id, job_state, Some(reservation_attempt_id)),
{
}

} // verus!
