//! Durable Job and queue control truth: accepted submissions, the
//! `SUBMITTED -> PLANNING -> QUEUED` steps, queue ordering, the reasons a
//! queued Job fails, retry idempotency, and the Job's part of the run path
//! (staging, running, preemption, node loss, the attempt's end).
//!
//! Only final states are stored; intermediate states of a normative path
//! are walked through at the moment of a decision.
use vstd::prelude::*;

use crate::attempt_state::AttemptState;
use crate::table::{keys_unique, lemma_table_absent, lemma_table_at, lemma_table_push, lemma_table_update, table_map};
use crate::text::{
    blank, copy_string, decimal, is_blank, push_decimal, lemma_lex_lt_irreflexive, lemma_lex_lt_total,
    lemma_lex_lt_transitive, lex_lt, push_str, str_eq, str_lt,
};

verus! {

/// The states of the normative Job state table.
#[derive(Debug, Clone, Copy, PartialEq, Eq, Structural)]
pub enum JobState {
    Submitted,
    Planning,
    Queued,
    Staging,
    Running,
    Paused,
    Interrupted,
    Replanning,
    Reconciling,
    Completed,
    Failed,
    Cancelled,
    Archived,
}

/// The name of a state in the table, which is also its stored form.
pub open spec fn state_name(s: JobState) -> Seq<char> {
    match s {
        JobState::Submitted => "SUBMITTED"@,
        JobState::Planning => "PLANNING"@,
        JobState::Queued => "QUEUED"@,
        JobState::Staging => "STAGING"@,
        JobState::Running => "RUNNING"@,
        JobState::Paused => "PAUSED"@,
        JobState::Interrupted => "INTERRUPTED"@,
        JobState::Replanning => "REPLANNING"@,
        JobState::Reconciling => "RECONCILING"@,
        JobState::Completed => "COMPLETED"@,
        JobState::Failed => "FAILED"@,
        JobState::Cancelled => "CANCELLED"@,
        JobState::Archived => "ARCHIVED"@,
    }
}

/// The states this store writes as a final state. The others are only
/// passed through within one decision; finding one stored is corruption.
pub open spec fn is_stored_state(s: JobState) -> bool {
    match s {
        JobState::Submitted | JobState::Planning | JobState::Queued | JobState::Staging
        | JobState::Running | JobState::Paused | JobState::Completed | JobState::Failed => true,
        _ => false,
    }
}

impl JobState {
    /// The name of the state in the table.
    pub fn table_name(self) -> (r: &'static str)
        ensures
            r@ == state_name(self),
    {
        match self {
            JobState::Submitted => "SUBMITTED",
            JobState::Planning => "PLANNING",
            JobState::Queued => "QUEUED",
            JobState::Staging => "STAGING",
            JobState::Running => "RUNNING",
            JobState::Paused => "PAUSED",
            JobState::Interrupted => "INTERRUPTED",
            JobState::Replanning => "REPLANNING",
            JobState::Reconciling => "RECONCILING",
            JobState::Completed => "COMPLETED",
            JobState::Failed => "FAILED",
            JobState::Cancelled => "CANCELLED",
            JobState::Archived => "ARCHIVED",
        }
    }

    /// The stored form: the table name.
    pub fn as_str(self) -> (r: &'static str)
        ensures
            r@ == state_name(self),
    {
        self.table_name()
    }
}

/// The stored state a name reads as; only the states this store writes.
pub open spec fn parsed_state(value: Seq<char>) -> Option<JobState> {
    if value == "SUBMITTED"@ {
        Some(JobState::Submitted)
    } else if value == "PLANNING"@ {
        Some(JobState::Planning)
    } else if value == "QUEUED"@ {
        Some(JobState::Queued)
    } else if value == "STAGING"@ {
        Some(JobState::Staging)
    } else if value == "RUNNING"@ {
        Some(JobState::Running)
    } else if value == "PAUSED"@ {
        Some(JobState::Paused)
    } else if value == "COMPLETED"@ {
        Some(JobState::Completed)
    } else if value == "FAILED"@ {
        Some(JobState::Failed)
    } else {
        None
    }
}

/// Reads a stored state. Only the states this store writes are accepted.
pub fn parse_job_state(value: &str) -> (r: Result<JobState, JobStoreError>)
    ensures
        match parsed_state(value@) {
            Some(s) => r == Ok::<JobState, JobStoreError>(s),
            None => r matches Err(e) && e is CorruptData,
        },
{
    if str_eq(value, "SUBMITTED") {
        Ok(JobState::Submitted)
    } else if str_eq(value, "PLANNING") {
        Ok(JobState::Planning)
    } else if str_eq(value, "QUEUED") {
        Ok(JobState::Queued)
    } else if str_eq(value, "STAGING") {
        Ok(JobState::Staging)
    } else if str_eq(value, "RUNNING") {
        Ok(JobState::Running)
    } else if str_eq(value, "PAUSED") {
        Ok(JobState::Paused)
    } else if str_eq(value, "COMPLETED") {
        Ok(JobState::Completed)
    } else if str_eq(value, "FAILED") {
        Ok(JobState::Failed)
    } else {
        let mut e = String::from_str("unknown job state in durable store: ");
        push_str(&mut e, value);
        Err(JobStoreError::CorruptData(e))
    }
}

/// Why a Job ended after it entered execution, stored under the trigger
/// name of the table. Kept apart from queue failures: "never placed" and
/// "died while running" have different guards and effects.
#[derive(Debug, Clone, Copy, PartialEq, Eq, Structural)]
pub enum RunTerminal {
    /// `RUNNING -> COMPLETED` (ATTEMPT_COMPLETED).
    AttemptCompleted,
    /// `STAGING -> FAILED` (STAGING_FAILED): execution never started.
    StagingFailed,
    /// `RUNNING -> FAILED` (UNRECOVERABLE_ERROR): failed while running, with
    /// no retry left (the retry policy is zero).
    UnrecoverableError,
    /// `INTERRUPTED -> FAILED` (NO_COMMITTED_CHECKPOINT): the node was lost
    /// and there is no checkpoint to resume from.
    NoCommittedCheckpoint,
}

pub open spec fn trigger_name(t: RunTerminal) -> Seq<char> {
    match t {
        RunTerminal::AttemptCompleted => "ATTEMPT_COMPLETED"@,
        RunTerminal::StagingFailed => "STAGING_FAILED"@,
        RunTerminal::UnrecoverableError => "UNRECOVERABLE_ERROR"@,
        RunTerminal::NoCommittedCheckpoint => "NO_COMMITTED_CHECKPOINT"@,
    }
}

impl RunTerminal {
    /// The trigger name of the table.
    pub fn trigger(self) -> (r: &'static str)
        ensures
            r@ == trigger_name(self),
    {
        match self {
            RunTerminal::AttemptCompleted => "ATTEMPT_COMPLETED",
            RunTerminal::StagingFailed => "STAGING_FAILED",
            RunTerminal::UnrecoverableError => "UNRECOVERABLE_ERROR",
            RunTerminal::NoCommittedCheckpoint => "NO_COMMITTED_CHECKPOINT",
        }
    }

    /// Reads a stored trigger name.
    pub fn parse(value: &str) -> (r: Result<RunTerminal, JobStoreError>)
        ensures
            match parsed_terminal(value@) {
                Some(t) => r == Ok::<RunTerminal, JobStoreError>(t),
                None => r matches Err(e) && e is CorruptData,
            },
    {
        if str_eq(value, "ATTEMPT_COMPLETED") {
            Ok(RunTerminal::AttemptCompleted)
        } else if str_eq(value, "STAGING_FAILED") {
            Ok(RunTerminal::StagingFailed)
        } else if str_eq(value, "UNRECOVERABLE_ERROR") {
            Ok(RunTerminal::UnrecoverableError)
        } else if str_eq(value, "NO_COMMITTED_CHECKPOINT") {
            Ok(RunTerminal::NoCommittedCheckpoint)
        } else {
            let mut e = String::from_str("unknown run terminal trigger in durable store: ");
            push_str(&mut e, value);
            Err(JobStoreError::CorruptData(e))
        }
    }
}

/// The trigger a stored name reads as.
pub open spec fn parsed_terminal(value: Seq<char>) -> Option<RunTerminal> {
    if value == "ATTEMPT_COMPLETED"@ {
        Some(RunTerminal::AttemptCompleted)
    } else if value == "STAGING_FAILED"@ {
        Some(RunTerminal::StagingFailed)
    } else if value == "UNRECOVERABLE_ERROR"@ {
        Some(RunTerminal::UnrecoverableError)
    } else if value == "NO_COMMITTED_CHECKPOINT"@ {
        Some(RunTerminal::NoCommittedCheckpoint)
    } else {
        None
    }
}

/// The three distinct reasons a queued Job fails.
#[derive(Debug, Clone, PartialEq, Eq)]
pub enum QueueFailure {
    DeadlinePassed,
    QueueTimeout,
    PermanentlyInfeasible { reason: String },
}

/// A queue failure as a value.
pub enum QueueFailureView {
    DeadlinePassed,
    QueueTimeout,
    PermanentlyInfeasible(Seq<char>),
}

impl View for QueueFailure {
    type V = QueueFailureView;

    open spec fn view(&self) -> QueueFailureView {
        match self {
            QueueFailure::DeadlinePassed => QueueFailureView::DeadlinePassed,
            QueueFailure::QueueTimeout => QueueFailureView::QueueTimeout,
            QueueFailure::PermanentlyInfeasible { reason } => QueueFailureView::PermanentlyInfeasible(
                reason@,
            ),
        }
    }
}

pub open spec fn failure_code(f: QueueFailureView) -> Seq<char> {
    match f {
        QueueFailureView::DeadlinePassed => "DEADLINE_PASSED"@,
        QueueFailureView::QueueTimeout => "QUEUE_TIMEOUT"@,
        QueueFailureView::PermanentlyInfeasible(_) => "PERMANENTLY_INFEASIBLE"@,
    }
}

/// A permanent infeasibility must carry a reason that is not blank.
pub open spec fn failure_ok(f: QueueFailureView) -> bool {
    match f {
        QueueFailureView::PermanentlyInfeasible(reason) => !is_blank(reason),
        _ => true,
    }
}

/// The queue failure a stored code and detail read as.
pub open spec fn parsed_failure(code: Seq<char>, detail: Option<Seq<char>>) -> Option<QueueFailureView> {
    if code == "DEADLINE_PASSED"@ && detail is None {
        Some(QueueFailureView::DeadlinePassed)
    } else if code == "QUEUE_TIMEOUT"@ && detail is None {
        Some(QueueFailureView::QueueTimeout)
    } else if code == "PERMANENTLY_INFEASIBLE"@ {
        match detail {
            Some(d) => if is_blank(d) {
                None
            } else {
                Some(QueueFailureView::PermanentlyInfeasible(d))
            },
            None => None,
        }
    } else {
        None
    }
}

impl QueueFailure {
    /// The stored code.
    pub fn code(&self) -> (r: &'static str)
        ensures
            r@ == failure_code(self@),
    {
        match self {
            QueueFailure::DeadlinePassed => "DEADLINE_PASSED",
            QueueFailure::QueueTimeout => "QUEUE_TIMEOUT",
            QueueFailure::PermanentlyInfeasible { .. } => "PERMANENTLY_INFEASIBLE",
        }
    }

    /// The stored detail: the reason of a permanent infeasibility.
    pub fn detail(&self) -> (r: Option<&str>)
        ensures
            match self@ {
                QueueFailureView::PermanentlyInfeasible(reason) => r matches Some(d) && d@ == reason,
                _ => r is None,
            },
    {
        match self {
            QueueFailure::PermanentlyInfeasible { reason } => Some(reason.as_str()),
            _ => None,
        }
    }

    /// Reads a stored code and detail. The two plain reasons carry no detail;
    /// a permanent infeasibility needs a reason that is not blank.
    pub fn parse(code: &str, detail: Option<String>) -> (r: Result<QueueFailure, JobStoreError>)
        ensures
            match parsed_failure(code@, opt_text(detail)) {
                Some(f) => r matches Ok(x) && x@ == f,
                None => r matches Err(e) && e is CorruptData,
            },
    {
        if str_eq(code, "DEADLINE_PASSED") && detail.is_none() {
            return Ok(QueueFailure::DeadlinePassed);
        }
        if str_eq(code, "QUEUE_TIMEOUT") && detail.is_none() {
            return Ok(QueueFailure::QueueTimeout);
        }
        if str_eq(code, "PERMANENTLY_INFEASIBLE") {
            return match detail {
                Some(reason) => if blank(reason.as_str()) {
                    Err(JobStoreError::CorruptData(String::from_str("PERMANENTLY_INFEASIBLE row has no reason")))
                } else {
                    Ok(QueueFailure::PermanentlyInfeasible { reason })
                },
                None => Err(JobStoreError::CorruptData(String::from_str("PERMANENTLY_INFEASIBLE row has no reason"))),
            };
        }
        let mut e = String::from_str("invalid queue failure in durable store: ");
        push_str(&mut e, code);
        Err(JobStoreError::CorruptData(e))
    }

    /// A field-by-field copy.
    pub fn copied(&self) -> (r: QueueFailure)
        ensures
            r == *self,
    {
        match self {
            QueueFailure::DeadlinePassed => QueueFailure::DeadlinePassed,
            QueueFailure::QueueTimeout => QueueFailure::QueueTimeout,
            QueueFailure::PermanentlyInfeasible { reason } => QueueFailure::PermanentlyInfeasible {
                reason: copy_string(reason),
            },
        }
    }
}

/// Whether two queue failures are the same reason (with the same text).
pub fn same_failure(a: &QueueFailure, b: &QueueFailure) -> (r: bool)
    ensures
        r == (a@ == b@),
{
    match (a, b) {
        (QueueFailure::DeadlinePassed, QueueFailure::DeadlinePassed) => true,
        (QueueFailure::QueueTimeout, QueueFailure::QueueTimeout) => true,
        (
            QueueFailure::PermanentlyInfeasible { reason: x },
            QueueFailure::PermanentlyInfeasible { reason: y },
        ) => str_eq(x.as_str(), y.as_str()),
        _ => false,
    }
}

/// A submission that has already passed signature, quorum, hard-filter and
/// duplicate-risk validation. Rejected submissions never reach the store and
/// never create a Job.
#[derive(Debug, Clone, PartialEq, Eq)]
pub struct AcceptedJobSubmission {
    pub idempotency_key: [u8; 16],
    pub job_id: String,
    pub submitter_device_id: String,
    pub manifest_hash: [u8; 32],
    pub deadline_unix_ms: Option<u64>,
    /// `None` is the manifest's "no independent queue timeout": the deadline
    /// governs.
    pub max_queue_duration_ms: Option<u64>,
}

/// The fields of a submission as values.
pub struct SubmissionView {
    pub idempotency_key: Seq<u8>,
    pub job_id: Seq<char>,
    pub submitter_device_id: Seq<char>,
    pub manifest_hash: Seq<u8>,
    pub deadline_unix_ms: Option<u64>,
    pub max_queue_duration_ms: Option<u64>,
}

impl View for AcceptedJobSubmission {
    type V = SubmissionView;

    open spec fn view(&self) -> SubmissionView {
        SubmissionView {
            idempotency_key: self.idempotency_key@,
            job_id: self.job_id@,
            submitter_device_id: self.submitter_device_id@,
            manifest_hash: self.manifest_hash@,
            deadline_unix_ms: self.deadline_unix_ms,
            max_queue_duration_ms: self.max_queue_duration_ms,
        }
    }
}

/// A stored Job.
#[derive(Debug, Clone, PartialEq, Eq)]
pub struct StoredJob {
    pub job_id: String,
    pub submitter_device_id: String,
    pub manifest_hash: [u8; 32],
    pub state: JobState,
    pub submitted_at_unix_ms: u64,
    pub planning_at_unix_ms: Option<u64>,
    pub queued_at_unix_ms: Option<u64>,
    pub staging_at_unix_ms: Option<u64>,
    pub deadline_unix_ms: Option<u64>,
    pub max_queue_duration_ms: Option<u64>,
    pub plan_id: Option<String>,
    pub queue_failure: Option<QueueFailure>,
    pub failed_at_unix_ms: Option<u64>,
    /// When execution was first observed (coordinator clock); empty on paths
    /// that did not observe it. Never invented.
    pub running_at_unix_ms: Option<u64>,
    /// Why the Job ended after it entered execution.
    pub run_terminal: Option<RunTerminal>,
    /// The end time the worker reported; not the coordinator clock, so never
    /// used for ordering checks.
    pub worker_reported_finished_at_unix_ms: Option<u64>,
    /// How often failover or preemption returned the Job to the queue; it
    /// tells the next attempt's identifier apart.
    pub requeue_count: u64,
    /// The producer-signed checkpoint manifest to resume from.
    pub resume_checkpoint: Option<Vec<u8>>,
    pub revision: u64,
}

/// A stored Job as a value.
pub struct JobView {
    pub job_id: Seq<char>,
    pub submitter_device_id: Seq<char>,
    pub manifest_hash: Seq<u8>,
    pub state: JobState,
    pub submitted_at_unix_ms: u64,
    pub planning_at_unix_ms: Option<u64>,
    pub queued_at_unix_ms: Option<u64>,
    pub staging_at_unix_ms: Option<u64>,
    pub deadline_unix_ms: Option<u64>,
    pub max_queue_duration_ms: Option<u64>,
    pub plan_id: Option<Seq<char>>,
    pub queue_failure: Option<QueueFailureView>,
    pub failed_at_unix_ms: Option<u64>,
    pub running_at_unix_ms: Option<u64>,
    pub run_terminal: Option<RunTerminal>,
    pub worker_reported_finished_at_unix_ms: Option<u64>,
    pub requeue_count: u64,
    pub resume_checkpoint: Option<Seq<u8>>,
    pub revision: u64,
}

pub open spec fn opt_text(o: Option<String>) -> Option<Seq<char>> {
    match o {
        Some(s) => Some(s@),
        None => None,
    }
}

pub open spec fn opt_bytes(o: Option<Vec<u8>>) -> Option<Seq<u8>> {
    match o {
        Some(b) => Some(b@),
        None => None,
    }
}

pub open spec fn opt_failure(o: Option<QueueFailure>) -> Option<QueueFailureView> {
    match o {
        Some(f) => Some(f@),
        None => None,
    }
}

impl View for StoredJob {
    type V = JobView;

    open spec fn view(&self) -> JobView {
        JobView {
            job_id: self.job_id@,
            submitter_device_id: self.submitter_device_id@,
            manifest_hash: self.manifest_hash@,
            state: self.state,
            submitted_at_unix_ms: self.submitted_at_unix_ms,
            planning_at_unix_ms: self.planning_at_unix_ms,
            queued_at_unix_ms: self.queued_at_unix_ms,
            staging_at_unix_ms: self.staging_at_unix_ms,
            deadline_unix_ms: self.deadline_unix_ms,
            max_queue_duration_ms: self.max_queue_duration_ms,
            plan_id: opt_text(self.plan_id),
            queue_failure: opt_failure(self.queue_failure),
            failed_at_unix_ms: self.failed_at_unix_ms,
            running_at_unix_ms: self.running_at_unix_ms,
            run_terminal: self.run_terminal,
            worker_reported_finished_at_unix_ms: self.worker_reported_finished_at_unix_ms,
            requeue_count: self.requeue_count,
            resume_checkpoint: opt_bytes(self.resume_checkpoint),
            revision: self.revision,
        }
    }
}

/// The immutable fields of a stored Job are those of the submission.
pub open spec fn submission_matches(j: JobView, s: SubmissionView) -> bool {
    &&& j.job_id == s.job_id
    &&& j.submitter_device_id == s.submitter_device_id
    &&& j.manifest_hash == s.manifest_hash
    &&& j.deadline_unix_ms == s.deadline_unix_ms
    &&& j.max_queue_duration_ms == s.max_queue_duration_ms
}

/// A copy of a byte vector.
pub fn copy_bytes(v: &Vec<u8>) -> (r: Vec<u8>)
    ensures
        r@ == v@,
{
    let mut r: Vec<u8> = Vec::new();
    let mut i: usize = 0;
    while i < v.len()
        invariant
            i <= v@.len(),
            r@ == v@.take(i as int),
        decreases v@.len() - i,
    {
        r.push(v[i]);
        proof {
            assert(v@.take(i + 1) =~= v@.take(i as int).push(v@[i as int]));
        }
        i = i + 1;
    }
    assert(v@.take(v@.len() as int) =~= v@);
    r
}

/// Whether two byte vectors hold the same bytes.
pub fn same_bytes(a: &Vec<u8>, b: &Vec<u8>) -> (r: bool)
    ensures
        r == (a@ == b@),
{
    if a.len() != b.len() {
        return false;
    }
    let mut i: usize = 0;
    while i < a.len()
        invariant
            a@.len() == b@.len(),
            i <= a@.len(),
            forall|k: int| 0 <= k < i ==> a@[k] == b@[k],
        decreases a@.len() - i,
    {
        if a[i] != b[i] {
            return false;
        }
        i = i + 1;
    }
    assert(a@ =~= b@);
    true
}

pub fn same_hash(a: &[u8; 32], b: &[u8; 32]) -> (r: bool)
    ensures
        r == (a@ == b@),
{
    let mut i: usize = 0;
    while i < 32
        invariant
            i <= 32,
            a@.len() == 32,
            b@.len() == 32,
            forall|k: int| 0 <= k < i ==> a@[k] == b@[k],
        decreases 32 - i,
    {
        if a[i] != b[i] {
            return false;
        }
        i = i + 1;
    }
    assert(a@ =~= b@);
    true
}

impl StoredJob {
    /// Whether this Job is the one `submission` created.
    pub fn matches_submission(&self, submission: &AcceptedJobSubmission) -> (r: bool)
        ensures
            r == submission_matches(self@, submission@),
    {
        str_eq(self.job_id.as_str(), submission.job_id.as_str()) && str_eq(
            self.submitter_device_id.as_str(),
            submission.submitter_device_id.as_str(),
        ) && same_hash(&self.manifest_hash, &submission.manifest_hash) && self.deadline_unix_ms
            == submission.deadline_unix_ms && self.max_queue_duration_ms
            == submission.max_queue_duration_ms
    }

    /// A field-by-field copy.
    pub fn copied(&self) -> (r: StoredJob)
        ensures
            r@ == self@,
    {
        StoredJob {
            job_id: copy_string(&self.job_id),
            submitter_device_id: copy_string(&self.submitter_device_id),
            manifest_hash: self.manifest_hash,
            state: self.state,
            submitted_at_unix_ms: self.submitted_at_unix_ms,
            planning_at_unix_ms: self.planning_at_unix_ms,
            queued_at_unix_ms: self.queued_at_unix_ms,
            staging_at_unix_ms: self.staging_at_unix_ms,
            deadline_unix_ms: self.deadline_unix_ms,
            max_queue_duration_ms: self.max_queue_duration_ms,
            plan_id: match &self.plan_id {
                Some(p) => Some(copy_string(p)),
                None => None,
            },
            queue_failure: match &self.queue_failure {
                Some(f) => Some(f.copied()),
                None => None,
            },
            failed_at_unix_ms: self.failed_at_unix_ms,
            running_at_unix_ms: self.running_at_unix_ms,
            run_terminal: self.run_terminal,
            worker_reported_finished_at_unix_ms: self.worker_reported_finished_at_unix_ms,
            requeue_count: self.requeue_count,
            resume_checkpoint: match &self.resume_checkpoint {
                Some(b) => Some(copy_bytes(b)),
                None => None,
            },
            revision: self.revision,
        }
    }
}

/// The result of a submission.
#[derive(Debug, Clone, PartialEq, Eq)]
pub struct SubmitResult {
    pub job: StoredJob,
    /// `false`: the idempotency key replayed the original durable result.
    pub created: bool,
}

/// How a durable manifest body fails to match its Job.
#[derive(Debug, Clone, Copy, PartialEq, Eq, Structural)]
pub enum ManifestCorruption {
    EmptyBody,
    UndecodableBody,
    HashMismatch,
    JobIdMismatch,
    SubmitterDeviceIdMismatch,
    SignerIdMismatch,
}

/// The identity fields of a decoded job manifest.
#[derive(Debug, Clone, PartialEq, Eq)]
pub struct JobManifestFacts {
    pub job_id: String,
    pub submitter_device_id: String,
}

pub struct ManifestIdentityView {
    pub job_id: Seq<char>,
    pub submitter_device_id: Seq<char>,
}

impl View for JobManifestFacts {
    type V = ManifestIdentityView;

    open spec fn view(&self) -> ManifestIdentityView {
        ManifestIdentityView { job_id: self.job_id@, submitter_device_id: self.submitter_device_id@ }
    }
}

/// A stored manifest row: the signer verified at submission, the body as
/// encoded, the identity the body decodes to (`None`: it does not decode)
/// and the hash derived from it.
pub struct ManifestRowView {
    pub signer_id: Seq<char>,
    pub body: Seq<u8>,
    pub decoded: Option<ManifestIdentityView>,
    pub derived_hash: Seq<u8>,
}

/// A job manifest whose signature was verified, as submission takes it: its
/// identity, the signer it was verified against, the body as encoded, and
/// the hash derived from it.
#[derive(Debug, Clone, PartialEq, Eq)]
pub struct VerifiedJobManifest {
    pub facts: JobManifestFacts,
    pub signer_id: String,
    pub body: Vec<u8>,
    pub derived_hash: [u8; 32],
}

/// A durable manifest body accepted at submission. Holding one is no claim
/// that its signature is still valid: after a restart it has to be verified
/// again against the keys trusted then.
#[derive(Debug, Clone, PartialEq, Eq)]
pub struct StoredManifestBinding {
    pub manifest_body: Vec<u8>,
    pub manifest_hash: [u8; 32],
    pub signer_id_at_submission: String,
}

pub struct BindingView {
    pub body: Seq<u8>,
    pub hash: Seq<u8>,
    pub signer_id: Seq<char>,
}

impl View for StoredManifestBinding {
    type V = BindingView;

    open spec fn view(&self) -> BindingView {
        BindingView {
            body: self.manifest_body@,
            hash: self.manifest_hash@,
            signer_id: self.signer_id_at_submission@,
        }
    }
}

/// The result of a manifest-bound submission.
#[derive(Debug, Clone, PartialEq, Eq)]
pub struct ManifestBoundSubmitResult {
    pub job: StoredJob,
    pub binding: StoredManifestBinding,
    /// `false`: the idempotency key replayed the original durable result.
    pub created: bool,
}

#[derive(Debug, PartialEq, Eq)]
pub enum JobStoreError {
    InvalidInput(&'static str),
    NotFound,
    IdempotencyConflict { stored_job_id: String, requested_job_id: String },
    JobIdConflict { job_id: String },
    InvalidTransition { from: JobState, to: JobState },
    PlanConflict { stored_plan_id: String, requested_plan_id: String },
    GuardNotMet(&'static str),
    ManifestIdentityMismatch(&'static str),
    ManifestHashMismatch,
    LegacyManifestMissing { job_id: String },
    ManifestCorrupt { job_id: String, kind: ManifestCorruption },
    ClockRollback { earlier_unix_ms: u64, later_unix_ms: u64 },
    CorruptData(String),
    Io(String),
    LockTimeout,
    InjectedFailure(&'static str),
}

/// A store error as a value.
pub enum JobErrorView {
    InvalidInput(Seq<char>),
    NotFound,
    IdempotencyConflict { stored_job_id: Seq<char>, requested_job_id: Seq<char> },
    JobIdConflict { job_id: Seq<char> },
    InvalidTransition { from: JobState, to: JobState },
    PlanConflict { stored_plan_id: Seq<char>, requested_plan_id: Seq<char> },
    GuardNotMet(Seq<char>),
    ManifestIdentityMismatch(Seq<char>),
    ManifestHashMismatch,
    LegacyManifestMissing { job_id: Seq<char> },
    ManifestCorrupt { job_id: Seq<char>, kind: ManifestCorruption },
    ClockRollback { earlier_unix_ms: u64, later_unix_ms: u64 },
    CorruptData(Seq<char>),
    Io(Seq<char>),
    LockTimeout,
    InjectedFailure(Seq<char>),
}

impl View for JobStoreError {
    type V = JobErrorView;

    open spec fn view(&self) -> JobErrorView {
        match self {
            JobStoreError::InvalidInput(f) => JobErrorView::InvalidInput(f@),
            JobStoreError::NotFound => JobErrorView::NotFound,
            JobStoreError::IdempotencyConflict { stored_job_id, requested_job_id } =>
                JobErrorView::IdempotencyConflict {
                stored_job_id: stored_job_id@,
                requested_job_id: requested_job_id@,
            },
            JobStoreError::JobIdConflict { job_id } => JobErrorView::JobIdConflict { job_id: job_id@ },
            JobStoreError::InvalidTransition { from, to } => JobErrorView::InvalidTransition {
                from: *from,
                to: *to,
            },
            JobStoreError::PlanConflict { stored_plan_id, requested_plan_id } =>
                JobErrorView::PlanConflict {
                stored_plan_id: stored_plan_id@,
                requested_plan_id: requested_plan_id@,
            },
            JobStoreError::GuardNotMet(g) => JobErrorView::GuardNotMet(g@),
            JobStoreError::ManifestIdentityMismatch(f) => JobErrorView::ManifestIdentityMismatch(f@),
            JobStoreError::ManifestHashMismatch => JobErrorView::ManifestHashMismatch,
            JobStoreError::LegacyManifestMissing { job_id } => JobErrorView::LegacyManifestMissing {
                job_id: job_id@,
            },
            JobStoreError::ManifestCorrupt { job_id, kind } => JobErrorView::ManifestCorrupt {
                job_id: job_id@,
                kind: *kind,
            },
            JobStoreError::ClockRollback { earlier_unix_ms, later_unix_ms } =>
                JobErrorView::ClockRollback {
                earlier_unix_ms: *earlier_unix_ms,
                later_unix_ms: *later_unix_ms,
            },
            JobStoreError::CorruptData(m) => JobErrorView::CorruptData(m@),
            JobStoreError::Io(m) => JobErrorView::Io(m@),
            JobStoreError::LockTimeout => JobErrorView::LockTimeout,
            JobStoreError::InjectedFailure(p) => JobErrorView::InjectedFailure(p@),
        }
    }
}

/// The submission's own checks: identifiers not blank, and a queue timeout,
/// when there is one, not zero.
pub open spec fn submission_error(s: SubmissionView) -> Option<JobErrorView> {
    if is_blank(s.job_id) {
        Some(JobErrorView::InvalidInput("job_id"@))
    } else if is_blank(s.submitter_device_id) {
        Some(JobErrorView::InvalidInput("submitter_device_id"@))
    } else if s.max_queue_duration_ms == Some(0u64) {
        Some(JobErrorView::InvalidInput("max_queue_duration_ms"@))
    } else {
        None
    }
}

pub fn validate_submission(submission: &AcceptedJobSubmission) -> (r: Result<(), JobStoreError>)
    ensures
        match submission_error(submission@) {
            None => r is Ok,
            Some(e) => r matches Err(x) && x@ == e,
        },
{
    if blank(submission.job_id.as_str()) {
        return Err(JobStoreError::InvalidInput("job_id"));
    }
    if blank(submission.submitter_device_id.as_str()) {
        return Err(JobStoreError::InvalidInput("submitter_device_id"));
    }
    if submission.max_queue_duration_ms == Some(0u64) {
        return Err(JobStoreError::InvalidInput("max_queue_duration_ms"));
    }
    Ok(())
}

/// An event may not be dated before the fact it follows.
pub fn ensure_not_before(event: u64, prior: u64) -> (r: Result<(), JobStoreError>)
    ensures
        event < prior ==> (r matches Err(e) && e@ == (JobErrorView::ClockRollback {
            earlier_unix_ms: event,
            later_unix_ms: prior,
        })),
        event >= prior ==> r is Ok,
{
    if event < prior {
        Err(JobStoreError::ClockRollback { earlier_unix_ms: event, later_unix_ms: prior })
    } else {
        Ok(())
    }
}

/// Nothing of the run has been recorded yet.
pub open spec fn not_run_yet(j: JobView) -> bool {
    &&& j.running_at_unix_ms is None
    &&& j.run_terminal is None
    &&& j.worker_reported_finished_at_unix_ms is None
}

/// The Job names a plan that is not blank.
pub open spec fn has_plan(j: JobView) -> bool {
    j.plan_id matches Some(p) && !is_blank(p)
}

/// The stored fields agree with the stored state: which timestamps, plan,
/// queue failure and run facts exist is fixed by the state, a resume
/// checkpoint exists only after a requeue and is never empty, and a permanent
/// infeasibility carries a reason.
pub open spec fn shape_ok(j: JobView) -> bool {
    &&& (j.resume_checkpoint is Some ==> j.requeue_count > 0)
    &&& (j.resume_checkpoint matches Some(b) ==> b.len() > 0)
    &&& (j.queue_failure matches Some(f) ==> failure_ok(f))
    &&& match j.state {
        JobState::Submitted => not_run_yet(j) && j.planning_at_unix_ms is None && j.queued_at_unix_ms is None
            && j.staging_at_unix_ms is None && j.plan_id is None && j.queue_failure is None
            && j.failed_at_unix_ms is None,
        JobState::Planning => not_run_yet(j) && j.planning_at_unix_ms is Some && j.queued_at_unix_ms is None
            && j.staging_at_unix_ms is None && j.plan_id is None && j.queue_failure is None
            && j.failed_at_unix_ms is None,
        JobState::Queued => not_run_yet(j) && j.planning_at_unix_ms is Some && j.queued_at_unix_ms is Some
            && j.staging_at_unix_ms is None && has_plan(j) && j.queue_failure is None
            && j.failed_at_unix_ms is None,
        JobState::Staging => not_run_yet(j) && j.planning_at_unix_ms is Some && j.queued_at_unix_ms is Some
            && j.staging_at_unix_ms is Some && has_plan(j) && j.queue_failure is None
            && j.failed_at_unix_ms is None,
        JobState::Running | JobState::Paused => j.planning_at_unix_ms is Some && j.queued_at_unix_ms is Some
            && j.staging_at_unix_ms is Some && j.running_at_unix_ms is Some && j.run_terminal is None
            && j.worker_reported_finished_at_unix_ms is None && has_plan(j) && j.queue_failure is None
            && j.failed_at_unix_ms is None,
        JobState::Completed => j.planning_at_unix_ms is Some && j.queued_at_unix_ms is Some
            && j.staging_at_unix_ms is Some && j.run_terminal == Some(RunTerminal::AttemptCompleted)
            && has_plan(j) && j.queue_failure is None && j.failed_at_unix_ms is None,
        JobState::Failed => {
            let queue_stage = not_run_yet(j) && j.staging_at_unix_ms is None && j.queue_failure is Some
                && j.failed_at_unix_ms is Some;
            let run_stage = j.staging_at_unix_ms is Some && (j.run_terminal == Some(
                RunTerminal::StagingFailed,
            ) || j.run_terminal == Some(RunTerminal::UnrecoverableError) || j.run_terminal == Some(
                RunTerminal::NoCommittedCheckpoint,
            )) && j.queue_failure is None && j.failed_at_unix_ms is None;
            j.planning_at_unix_ms is Some && j.queued_at_unix_ms is Some && has_plan(j) && (queue_stage
                || run_stage)
        },
        _ => false,
    }
}

fn plan_present(p: &Option<String>) -> (r: bool)
    ensures
        r == (opt_text(*p) matches Some(s) && !is_blank(s)),
{
    match p {
        Some(s) => !blank(s.as_str()),
        None => false,
    }
}

fn failure_reason_ok(f: &Option<QueueFailure>) -> (r: bool)
    ensures
        r == (opt_failure(*f) matches Some(x) ==> failure_ok(x)),
{
    match f {
        Some(QueueFailure::PermanentlyInfeasible { reason }) => !blank(reason.as_str()),
        _ => true,
    }
}

/// Whether the stored fields agree with the stored state.
pub fn job_shape_ok(j: &StoredJob) -> (r: bool)
    ensures
        r == shape_ok(j@),
{
    let v = j;
    match &v.resume_checkpoint {
        Some(b) => {
            if v.requeue_count == 0 || b.len() == 0 {
                return false;
            }
        },
        None => {},
    }
    if !failure_reason_ok(&v.queue_failure) {
        return false;
    }
    let not_run_yet = v.running_at_unix_ms.is_none() && v.run_terminal.is_none()
        && v.worker_reported_finished_at_unix_ms.is_none();
    let has_plan = plan_present(&v.plan_id);
    match v.state {
        JobState::Submitted => not_run_yet && v.planning_at_unix_ms.is_none() && v.queued_at_unix_ms.is_none()
            && v.staging_at_unix_ms.is_none() && v.plan_id.is_none() && v.queue_failure.is_none()
            && v.failed_at_unix_ms.is_none(),
        JobState::Planning => not_run_yet && v.planning_at_unix_ms.is_some() && v.queued_at_unix_ms.is_none()
            && v.staging_at_unix_ms.is_none() && v.plan_id.is_none() && v.queue_failure.is_none()
            && v.failed_at_unix_ms.is_none(),
        JobState::Queued => not_run_yet && v.planning_at_unix_ms.is_some() && v.queued_at_unix_ms.is_some()
            && v.staging_at_unix_ms.is_none() && has_plan && v.queue_failure.is_none()
            && v.failed_at_unix_ms.is_none(),
        JobState::Staging => not_run_yet && v.planning_at_unix_ms.is_some() && v.queued_at_unix_ms.is_some()
            && v.staging_at_unix_ms.is_some() && has_plan && v.queue_failure.is_none()
            && v.failed_at_unix_ms.is_none(),
        JobState::Running | JobState::Paused => v.planning_at_unix_ms.is_some() && v.queued_at_unix_ms.is_some()
            && v.staging_at_unix_ms.is_some() && v.running_at_unix_ms.is_some() && v.run_terminal.is_none()
            && v.worker_reported_finished_at_unix_ms.is_none() && has_plan && v.queue_failure.is_none()
            && v.failed_at_unix_ms.is_none(),
        JobState::Completed => v.planning_at_unix_ms.is_some() && v.queued_at_unix_ms.is_some()
            && v.staging_at_unix_ms.is_some() && v.run_terminal == Some(RunTerminal::AttemptCompleted)
            && has_plan && v.queue_failure.is_none() && v.failed_at_unix_ms.is_none(),
        JobState::Failed => {
            let queue_stage = not_run_yet && v.staging_at_unix_ms.is_none() && v.queue_failure.is_some()
                && v.failed_at_unix_ms.is_some();
            let run_stage = v.staging_at_unix_ms.is_some() && (v.run_terminal == Some(
                RunTerminal::StagingFailed,
            ) || v.run_terminal == Some(RunTerminal::UnrecoverableError) || v.run_terminal == Some(
                RunTerminal::NoCommittedCheckpoint,
            )) && v.queue_failure.is_none() && v.failed_at_unix_ms.is_none();
            v.planning_at_unix_ms.is_some() && v.queued_at_unix_ms.is_some() && has_plan && (queue_stage
                || run_stage)
        },
        _ => false,
    }
}

/// The error a stored row whose shape does not match its state reads as.
pub open spec fn shape_error(j: JobView) -> JobErrorView {
    JobErrorView::CorruptData(state_name(j.state) + " row shape does not match its state"@)
}

fn shape_error_exec(j: &StoredJob) -> (e: JobStoreError)
    ensures
        e@ == shape_error(j@),
{
    let mut m = String::from_str(j.state.as_str());
    push_str(&mut m, " row shape does not match its state");
    JobStoreError::CorruptData(m)
}

pub type JobMap = Map<Seq<char>, JobView>;

/// Reading one Job: absent, corrupt (its shape does not match its state), or
/// the Job.
pub open spec fn read_job(jobs: JobMap, job_id: Seq<char>) -> Result<Option<JobView>, JobErrorView> {
    if !jobs.contains_key(job_id) {
        Ok(None)
    } else if !shape_ok(jobs[job_id]) {
        Err(shape_error(jobs[job_id]))
    } else {
        Ok(Some(jobs[job_id]))
    }
}

/// The Jobs by id and the idempotency keys of their submissions.
#[verifier::ext_equal]
pub struct JobStoreView {
    pub jobs: JobMap,
    pub keys: Map<Seq<u8>, Seq<char>>,
    /// The manifest bodies stored with manifest-bound submissions, by Job id.
    pub manifests: Map<Seq<char>, ManifestRowView>,
}

/// A Job in its first state, made from its submission.
pub open spec fn new_job(s: SubmissionView, at: u64) -> JobView {
    JobView {
        job_id: s.job_id,
        submitter_device_id: s.submitter_device_id,
        manifest_hash: s.manifest_hash,
        state: JobState::Submitted,
        submitted_at_unix_ms: at,
        planning_at_unix_ms: None,
        queued_at_unix_ms: None,
        staging_at_unix_ms: None,
        deadline_unix_ms: s.deadline_unix_ms,
        max_queue_duration_ms: s.max_queue_duration_ms,
        plan_id: None,
        queue_failure: None,
        failed_at_unix_ms: None,
        running_at_unix_ms: None,
        run_terminal: None,
        worker_reported_finished_at_unix_ms: None,
        requeue_count: 0,
        resume_checkpoint: None,
        revision: 0,
    }
}

/// What a submission does. A key seen before replays its Job (unchanged,
/// `created == false`) when the immutable input is the same, and conflicts
/// otherwise; a new key with a Job id already stored conflicts; a new key
/// and id create the Job in SUBMITTED and bind the key, both at once.
pub open spec fn submit_step(v: JobStoreView, s: SubmissionView, at: u64) -> (JobStoreView, Result<
    (JobView, bool),
    JobErrorView,
>) {
    match submission_error(s) {
        Some(e) => (v, Err(e)),
        None => if v.keys.contains_key(s.idempotency_key) {
            let stored_id = v.keys[s.idempotency_key];
            match read_job(v.jobs, stored_id) {
                Err(e) => (v, Err(e)),
                Ok(None) => (
                    v,
                    Err(JobErrorView::CorruptData("idempotency key points to missing job: "@ + stored_id)),
                ),
                Ok(Some(j)) => if submission_matches(j, s) {
                    (v, Ok((j, false)))
                } else {
                    (
                        v,
                        Err(
                            JobErrorView::IdempotencyConflict {
                                stored_job_id: stored_id,
                                requested_job_id: s.job_id,
                            },
                        ),
                    )
                },
            }
        } else {
            match read_job(v.jobs, s.job_id) {
                Err(e) => (v, Err(e)),
                Ok(Some(_)) => (v, Err(JobErrorView::JobIdConflict { job_id: s.job_id })),
                Ok(None) => (
                    JobStoreView {
                        jobs: v.jobs.insert(s.job_id, new_job(s, at)),
                        keys: v.keys.insert(s.idempotency_key, s.job_id),
                        manifests: v.manifests,
                    },
                    Ok((new_job(s, at), true)),
                ),
            }
        },
    }
}

/// A verified manifest must name the submitted Job and submitter, and be
/// signed by that submitter.
pub open spec fn manifest_identity_error(s: SubmissionView, m: ManifestIdentityView, signer_id: Seq<char>) -> Option<
    JobErrorView,
> {
    if m.job_id != s.job_id {
        Some(JobErrorView::ManifestIdentityMismatch("job_id"@))
    } else if m.submitter_device_id != s.submitter_device_id {
        Some(JobErrorView::ManifestIdentityMismatch("submitter_device_id"@))
    } else if signer_id != s.submitter_device_id {
        Some(JobErrorView::ManifestIdentityMismatch("verified signer_id"@))
    } else {
        None
    }
}

/// The manifest binding of a stored Job. A Job submitted before manifest
/// bodies were kept has none and is refused; a body that is empty, does not
/// decode, names another Job or submitter, was signed by another device, or
/// derives another hash than the Job's is corrupt.
pub open spec fn binding_of(manifests: Map<Seq<char>, ManifestRowView>, j: JobView) -> Result<BindingView, JobErrorView> {
    if !manifests.contains_key(j.job_id) {
        Err(JobErrorView::LegacyManifestMissing { job_id: j.job_id })
    } else {
        let r = manifests[j.job_id];
        if r.body.len() == 0 {
            Err(JobErrorView::ManifestCorrupt { job_id: j.job_id, kind: ManifestCorruption::EmptyBody })
        } else if r.decoded is None {
            Err(JobErrorView::ManifestCorrupt { job_id: j.job_id, kind: ManifestCorruption::UndecodableBody })
        } else if r.decoded->0.job_id != j.job_id {
            Err(JobErrorView::ManifestCorrupt { job_id: j.job_id, kind: ManifestCorruption::JobIdMismatch })
        } else if r.decoded->0.submitter_device_id != j.submitter_device_id {
            Err(
                JobErrorView::ManifestCorrupt {
                    job_id: j.job_id,
                    kind: ManifestCorruption::SubmitterDeviceIdMismatch,
                },
            )
        } else if r.signer_id != j.submitter_device_id {
            Err(JobErrorView::ManifestCorrupt { job_id: j.job_id, kind: ManifestCorruption::SignerIdMismatch })
        } else if r.derived_hash != j.manifest_hash {
            Err(JobErrorView::ManifestCorrupt { job_id: j.job_id, kind: ManifestCorruption::HashMismatch })
        } else {
            Ok(BindingView { body: r.body, hash: r.derived_hash, signer_id: r.signer_id })
        }
    }
}

/// A verified manifest as values.
pub struct ManifestSubmissionView {
    pub identity: ManifestIdentityView,
    pub signer_id: Seq<char>,
    pub body: Seq<u8>,
    pub hash: Seq<u8>,
}

impl View for VerifiedJobManifest {
    type V = ManifestSubmissionView;

    open spec fn view(&self) -> ManifestSubmissionView {
        ManifestSubmissionView {
            identity: self.facts@,
            signer_id: self.signer_id@,
            body: self.body@,
            hash: self.derived_hash@,
        }
    }
}

/// What a manifest-bound submission does: the submission's own checks, the
/// manifest's identity, and the supplied hash against the derived one come
/// first. A key seen before replays its Job and binding only when the
/// immutable input, the stored body and the signer are all the same, and
/// conflicts otherwise; a new key with a stored Job id conflicts; a new key
/// and id create the Job, its manifest row and the key binding at once.
pub open spec fn submit_manifest_step(v: JobStoreView, s: SubmissionView, m: ManifestSubmissionView, at: u64) -> (
    JobStoreView,
    Result<(JobView, BindingView, bool), JobErrorView>,
) {
    if submission_error(s) is Some {
        (v, Err(submission_error(s)->0))
    } else if manifest_identity_error(s, m.identity, m.signer_id) is Some {
        (v, Err(manifest_identity_error(s, m.identity, m.signer_id)->0))
    } else if s.manifest_hash != m.hash {
        (v, Err(JobErrorView::ManifestHashMismatch))
    } else if v.keys.contains_key(s.idempotency_key) {
        let stored_id = v.keys[s.idempotency_key];
        match read_job(v.jobs, stored_id) {
            Err(e) => (v, Err(e)),
            Ok(None) => (v, Err(JobErrorView::CorruptData("idempotency key points to missing job: "@ + stored_id))),
            Ok(Some(j)) => if !submission_matches(j, s) {
                (v, Err(JobErrorView::IdempotencyConflict { stored_job_id: stored_id, requested_job_id: s.job_id }))
            } else {
                match binding_of(v.manifests, j) {
                    Err(e) => (v, Err(e)),
                    Ok(b) => if b.body != m.body || b.signer_id != m.signer_id {
                        (
                            v,
                            Err(
                                JobErrorView::IdempotencyConflict {
                                    stored_job_id: stored_id,
                                    requested_job_id: s.job_id,
                                },
                            ),
                        )
                    } else {
                        (v, Ok((j, b, false)))
                    },
                }
            },
        }
    } else {
        match read_job(v.jobs, s.job_id) {
            Err(e) => (v, Err(e)),
            Ok(Some(_)) => (v, Err(JobErrorView::JobIdConflict { job_id: s.job_id })),
            Ok(None) => (
                JobStoreView {
                    jobs: v.jobs.insert(s.job_id, new_job(s, at)),
                    keys: v.keys.insert(s.idempotency_key, s.job_id),
                    manifests: v.manifests.insert(
                        s.job_id,
                        ManifestRowView {
                            signer_id: m.signer_id,
                            body: m.body,
                            decoded: Some(m.identity),
                            derived_hash: m.hash,
                        },
                    ),
                },
                Ok((new_job(s, at), BindingView { body: m.body, hash: m.hash, signer_id: m.signer_id }, true)),
            ),
        }
    }
}

pub open spec fn manifest_submit_result(r: Result<ManifestBoundSubmitResult, JobStoreError>) -> Result<
    (JobView, BindingView, bool),
    JobErrorView,
> {
    match r {
        Ok(x) => Ok((x.job@, x.binding@, x.created)),
        Err(e) => Err(e@),
    }
}

/// An operation on one stored Job: a missing Job is `NotFound`, a corrupt one
/// is refused, otherwise `apply` decides; the store changes only when it
/// succeeds, and then only that Job.
pub open spec fn on_job(
    v: JobStoreView,
    job_id: Seq<char>,
    apply: spec_fn(JobView) -> Result<JobView, JobErrorView>,
) -> (JobStoreView, Result<JobView, JobErrorView>) {
    match read_job(v.jobs, job_id) {
        Err(e) => (v, Err(e)),
        Ok(None) => (v, Err(JobErrorView::NotFound)),
        Ok(Some(j)) => match apply(j) {
            Err(e) => (v, Err(e)),
            Ok(n) => (JobStoreView { jobs: v.jobs.insert(job_id, n), keys: v.keys, manifests: v.manifests }, Ok(n)),
        },
    }
}

pub open spec fn revision_overflow() -> JobErrorView {
    JobErrorView::CorruptData("job revision overflow"@)
}

/// `SUBMITTED -> PLANNING`; a retry on a PLANNING Job returns it unchanged.
pub open spec fn start_planning_apply(j: JobView, at: u64) -> Result<JobView, JobErrorView> {
    if j.state == JobState::Planning {
        Ok(j)
    } else if j.state != JobState::Submitted {
        Err(JobErrorView::InvalidTransition { from: j.state, to: JobState::Planning })
    } else if at < j.submitted_at_unix_ms {
        Err(JobErrorView::ClockRollback { earlier_unix_ms: at, later_unix_ms: j.submitted_at_unix_ms })
    } else if j.revision == u64::MAX {
        Err(revision_overflow())
    } else {
        Ok(
            JobView {
                state: JobState::Planning,
                planning_at_unix_ms: Some(at),
                revision: (j.revision + 1) as u64,
                ..j
            },
        )
    }
}

/// The QUEUED case shared by both enqueue operations: the same plan returns
/// the Job unchanged, another plan conflicts.
pub open spec fn queued_retry(j: JobView, plan_id: Seq<char>) -> Result<JobView, JobErrorView> {
    if j.plan_id == Some(plan_id) {
        Ok(j)
    } else {
        Err(
            JobErrorView::PlanConflict {
                stored_plan_id: match j.plan_id {
                    Some(p) => p,
                    None => Seq::empty(),
                },
                requested_plan_id: plan_id,
            },
        )
    }
}

/// `PLANNING -> QUEUED` with the plan.
pub open spec fn queue_planned(j: JobView, plan_id: Seq<char>, at: u64) -> Result<JobView, JobErrorView> {
    if j.state != JobState::Planning {
        Err(JobErrorView::InvalidTransition { from: j.state, to: JobState::Queued })
    } else if j.planning_at_unix_ms is None {
        Err(JobErrorView::CorruptData("PLANNING job has no planning timestamp"@))
    } else if at < j.planning_at_unix_ms->0 {
        Err(JobErrorView::ClockRollback { earlier_unix_ms: at, later_unix_ms: j.planning_at_unix_ms->0 })
    } else if j.revision == u64::MAX {
        Err(revision_overflow())
    } else {
        Ok(
            JobView {
                state: JobState::Queued,
                queued_at_unix_ms: Some(at),
                plan_id: Some(plan_id),
                revision: (j.revision + 1) as u64,
                ..j
            },
        )
    }
}

pub open spec fn enqueue_apply(j: JobView, plan_id: Seq<char>, at: u64) -> Result<JobView, JobErrorView> {
    if j.state == JobState::Queued {
        queued_retry(j, plan_id)
    } else {
        queue_planned(j, plan_id, at)
    }
}

/// Both steps from SUBMITTED at once; a PLANNING Job only moves on.
pub open spec fn plan_and_enqueue_apply(j: JobView, plan_id: Seq<char>, at: u64) -> Result<JobView, JobErrorView> {
    if j.state == JobState::Queued {
        queued_retry(j, plan_id)
    } else if j.state == JobState::Submitted {
        match start_planning_apply(j, at) {
            Err(e) => Err(e),
            Ok(p) => queue_planned(p, plan_id, at),
        }
    } else {
        queue_planned(j, plan_id, at)
    }
}

pub open spec fn start_planning_step(v: JobStoreView, job_id: Seq<char>, at: u64) -> (JobStoreView, Result<JobView, JobErrorView>) {
    on_job(v, job_id, |j: JobView| start_planning_apply(j, at))
}

/// A blank plan id is refused before the store is read.
pub open spec fn enqueue_step(v: JobStoreView, job_id: Seq<char>, plan_id: Seq<char>, at: u64) -> (JobStoreView, Result<JobView, JobErrorView>) {
    if is_blank(plan_id) {
        (v, Err(JobErrorView::InvalidInput("plan_id"@)))
    } else {
        on_job(v, job_id, |j: JobView| enqueue_apply(j, plan_id, at))
    }
}

pub open spec fn plan_and_enqueue_step(v: JobStoreView, job_id: Seq<char>, plan_id: Seq<char>, at: u64) -> (JobStoreView, Result<JobView, JobErrorView>) {
    if is_blank(plan_id) {
        (v, Err(JobErrorView::InvalidInput("plan_id"@)))
    } else {
        on_job(v, job_id, |j: JobView| plan_and_enqueue_apply(j, plan_id, at))
    }
}

/// The guard of each queue failure: a deadline strictly passed, a queue wait
/// strictly longer than the independent limit; permanent infeasibility has
/// no time guard.
pub open spec fn queue_guard(j: JobView, f: QueueFailureView, at: u64, queued_at: u64) -> Option<JobErrorView> {
    match f {
        QueueFailureView::DeadlinePassed => match j.deadline_unix_ms {
            None => Some(JobErrorView::GuardNotMet("Job has no deadline"@)),
            Some(d) => if at <= d {
                Some(JobErrorView::GuardNotMet("now must be greater than deadline"@))
            } else {
                None
            },
        },
        QueueFailureView::QueueTimeout => match j.max_queue_duration_ms {
            None => Some(JobErrorView::GuardNotMet("Job has no independent queue timeout"@)),
            Some(limit) => if at - queued_at <= limit {
                Some(JobErrorView::GuardNotMet("queue wait must be greater than max queue duration"@))
            } else {
                None
            },
        },
        QueueFailureView::PermanentlyInfeasible(_) => None,
    }
}

/// `QUEUED -> FAILED` with one of the three reasons; repeating the same
/// reason on the FAILED Job returns it unchanged.
pub open spec fn fail_queued_apply(j: JobView, f: QueueFailureView, at: u64) -> Result<JobView, JobErrorView> {
    if j.state == JobState::Failed && j.queue_failure == Some(f) {
        Ok(j)
    } else if j.state != JobState::Queued {
        Err(JobErrorView::InvalidTransition { from: j.state, to: JobState::Failed })
    } else if j.queued_at_unix_ms is None {
        Err(JobErrorView::CorruptData("QUEUED job has no queue timestamp"@))
    } else if at < j.queued_at_unix_ms->0 {
        Err(JobErrorView::ClockRollback { earlier_unix_ms: at, later_unix_ms: j.queued_at_unix_ms->0 })
    } else if queue_guard(j, f, at, j.queued_at_unix_ms->0) is Some {
        Err(queue_guard(j, f, at, j.queued_at_unix_ms->0)->0)
    } else if j.revision == u64::MAX {
        Err(revision_overflow())
    } else {
        Ok(
            JobView {
                state: JobState::Failed,
                queue_failure: Some(f),
                failed_at_unix_ms: Some(at),
                revision: (j.revision + 1) as u64,
                ..j
            },
        )
    }
}

/// A permanent infeasibility with a blank reason is refused before the store
/// is read: the store never infers infeasibility.
pub open spec fn fail_queued_step(v: JobStoreView, job_id: Seq<char>, f: QueueFailureView, at: u64) -> (JobStoreView, Result<JobView, JobErrorView>) {
    if !failure_ok(f) {
        (v, Err(JobErrorView::InvalidInput("permanent infeasibility reason"@)))
    } else {
        on_job(v, job_id, |j: JobView| fail_queued_apply(j, f, at))
    }
}

pub open spec fn job_result(r: Result<StoredJob, JobStoreError>) -> Result<JobView, JobErrorView> {
    match r {
        Ok(j) => Ok(j@),
        Err(e) => Err(e@),
    }
}

pub open spec fn submit_result(r: Result<SubmitResult, JobStoreError>) -> Result<(JobView, bool), JobErrorView> {
    match r {
        Ok(s) => Ok((s.job@, s.created)),
        Err(e) => Err(e@),
    }
}

/// A binding of an idempotency key to the Job it created.
struct KeyBinding {
    key: [u8; 16],
    job_id: String,
}

/// A stored manifest body with the signer verified at submission. The
/// identity the body decodes to and the hash derived from it are computed by
/// the caller when the body is accepted or loaded; the body never changes,
/// so they stay what a decode at read time would give.
struct ManifestRow {
    job_id: String,
    signer_id: String,
    body: Vec<u8>,
    decoded: Option<JobManifestFacts>,
    derived_hash: [u8; 32],
}

spec fn manifest_row_key() -> spec_fn(ManifestRow) -> Seq<char> {
    |m: ManifestRow| m.job_id@
}

spec fn manifest_row_val() -> spec_fn(ManifestRow) -> ManifestRowView {
    |m: ManifestRow| ManifestRowView {
        signer_id: m.signer_id@,
        body: m.body@,
        decoded: match m.decoded {
            Some(d) => Some(d@),
            None => None,
        },
        derived_hash: m.derived_hash@,
    }
}

spec fn job_key() -> spec_fn(StoredJob) -> Seq<char> {
    |j: StoredJob| j.job_id@
}

spec fn job_val() -> spec_fn(StoredJob) -> JobView {
    |j: StoredJob| j@
}

spec fn binding_key() -> spec_fn(KeyBinding) -> Seq<u8> {
    |b: KeyBinding| b.key@
}

spec fn binding_val() -> spec_fn(KeyBinding) -> Seq<char> {
    |b: KeyBinding| b.job_id@
}

/// The Job and queue control store: each Job once under its id, each
/// idempotency key once, bound to a stored Job.
pub struct CoordinatorJobStore {
    jobs: Vec<StoredJob>,
    keys: Vec<KeyBinding>,
    manifests: Vec<ManifestRow>,
}

impl View for CoordinatorJobStore {
    type V = JobStoreView;

    closed spec fn view(&self) -> JobStoreView {
        JobStoreView {
            jobs: table_map(self.jobs@, job_key(), job_val()),
            keys: table_map(self.keys@, binding_key(), binding_val()),
            manifests: table_map(self.manifests@, manifest_row_key(), manifest_row_val()),
        }
    }
}

impl CoordinatorJobStore {
    /// Ids and keys are unique, and every key and manifest row names a stored
    /// Job.
    pub closed spec fn wf(&self) -> bool {
        &&& keys_unique(self.jobs@, job_key())
        &&& keys_unique(self.keys@, binding_key())
        &&& keys_unique(self.manifests@, manifest_row_key())
        &&& forall|k: Seq<u8>| #[trigger] self@.keys.contains_key(k) ==> self@.jobs.contains_key(self@.keys[k])
        &&& forall|k: Seq<char>| #[trigger] self@.manifests.contains_key(k) ==> self@.jobs.contains_key(k)
    }

    /// An empty store.
    pub fn new() -> (s: Self)
        ensures
            s.wf(),
            s@.jobs == Map::<Seq<char>, JobView>::empty(),
            s@.keys == Map::<Seq<u8>, Seq<char>>::empty(),
            s@.manifests == Map::<Seq<char>, ManifestRowView>::empty(),
    {
        let s = CoordinatorJobStore { jobs: Vec::new(), keys: Vec::new(), manifests: Vec::new() };
        assert(s@.jobs =~= Map::<Seq<char>, JobView>::empty());
        assert(s@.keys =~= Map::<Seq<u8>, Seq<char>>::empty());
        assert(s@.manifests =~= Map::<Seq<char>, ManifestRowView>::empty());
        s
    }

    fn find(&self, job_id: &str) -> (r: Option<usize>)
        requires
            keys_unique(self.jobs@, job_key()),
        ensures
            match r {
                Some(i) => i < self.jobs@.len() && self.jobs@[i as int].job_id@ == job_id@
                    && self@.jobs.contains_key(job_id@) && self@.jobs[job_id@] == self.jobs@[i as int]@,
                None => !self@.jobs.contains_key(job_id@),
            },
    {
        let mut i: usize = 0;
        while i < self.jobs.len()
            invariant
                keys_unique(self.jobs@, job_key()),
                i <= self.jobs@.len(),
                forall|k: int| 0 <= k < i ==> (#[trigger] self.jobs@[k]).job_id@ != job_id@,
            decreases self.jobs@.len() - i,
        {
            if str_eq(self.jobs[i].job_id.as_str(), job_id) {
                proof {
                    lemma_table_at(self.jobs@, job_key(), job_val(), i as int);
                }
                return Some(i);
            }
            i = i + 1;
        }
        proof {
            assert forall|k: int| 0 <= k < self.jobs@.len() implies job_key()(#[trigger] self.jobs@[k]) != job_id@ by {
                assert(self.jobs@[k].job_id@ != job_id@);
            }
            lemma_table_absent(self.jobs@, job_key(), job_val(), job_id@);
        }
        None
    }

    fn find_key(&self, key: &[u8; 16]) -> (r: Option<usize>)
        requires
            keys_unique(self.keys@, binding_key()),
        ensures
            match r {
                Some(i) => i < self.keys@.len() && self.keys@[i as int].key@ == key@
                    && self@.keys.contains_key(key@) && self@.keys[key@] == self.keys@[i as int].job_id@,
                None => !self@.keys.contains_key(key@),
            },
    {
        let mut i: usize = 0;
        while i < self.keys.len()
            invariant
                keys_unique(self.keys@, binding_key()),
                i <= self.keys@.len(),
                forall|k: int| 0 <= k < i ==> (#[trigger] self.keys@[k]).key@ != key@,
            decreases self.keys@.len() - i,
        {
            if same_key(&self.keys[i].key, key) {
                proof {
                    lemma_table_at(self.keys@, binding_key(), binding_val(), i as int);
                }
                return Some(i);
            }
            i = i + 1;
        }
        proof {
            assert forall|k: int| 0 <= k < self.keys@.len() implies binding_key()(#[trigger] self.keys@[k]) != key@ by {
                assert(self.keys@[k].key@ != key@);
            }
            lemma_table_absent(self.keys@, binding_key(), binding_val(), key@);
        }
        None
    }

    /// Reads one Job, refusing a corrupt one.
    fn read(&self, job_id: &str) -> (r: Result<Option<usize>, JobStoreError>)
        requires
            keys_unique(self.jobs@, job_key()),
        ensures
            match read_job(self@.jobs, job_id@) {
                Err(e) => r matches Err(x) && x@ == e,
                Ok(None) => r == Ok::<Option<usize>, JobStoreError>(None),
                Ok(Some(j)) => r matches Ok(Some(i)) && i < self.jobs@.len() && self.jobs@[i as int]@ == j
                    && self.jobs@[i as int].job_id@ == job_id@,
            },
    {
        match self.find(job_id) {
            None => Ok(None),
            Some(i) => if job_shape_ok(&self.jobs[i]) {
                Ok(Some(i))
            } else {
                Err(shape_error_exec(&self.jobs[i]))
            },
        }
    }

    /// The Job with id `job_id`, if stored; a corrupt Job is refused.
    pub fn get(&self, job_id: &str) -> (r: Result<Option<StoredJob>, JobStoreError>)
        requires
            self.wf(),
        ensures
            match read_job(self@.jobs, job_id@) {
                Err(e) => r matches Err(x) && x@ == e,
                Ok(None) => r matches Ok(None),
                Ok(Some(j)) => r matches Ok(Some(x)) && x@ == j,
            },
    {
        match self.read(job_id) {
            Err(e) => Err(e),
            Ok(None) => Ok(None),
            Ok(Some(i)) => Ok(Some(self.jobs[i].copied())),
        }
    }

    /// Replaces the Job at `i` with `job`, which has the same id.
    fn commit(&mut self, i: usize, job: StoredJob)
        requires
            old(self).wf(),
            i < old(self).jobs@.len(),
            job.job_id@ == old(self).jobs@[i as int].job_id@,
        ensures
            final(self).wf(),
            final(self)@ == (JobStoreView {
                jobs: old(self)@.jobs.insert(job.job_id@, job@),
                keys: old(self)@.keys,
                manifests: old(self)@.manifests,
            }),
    {
        proof {
            lemma_table_update(self.jobs@, job_key(), job_val(), i as int, job);
        }
        self.jobs.set(i, job);
        proof {
            assert(self@.keys == old(self)@.keys);
        }
    }

    /// Atomically creates an accepted Job in SUBMITTED and binds its
    /// idempotency key. A logical retry with the same key returns the first
    /// record, first submit time included; reusing the key with changed
    /// immutable input, or the Job id with another key, fails closed.
    pub fn submit_accepted(&mut self, submission: &AcceptedJobSubmission, submitted_at_unix_ms: u64) -> (r:
        Result<SubmitResult, JobStoreError>)
        requires
            old(self).wf(),
        ensures
            final(self).wf(),
            (final(self)@, submit_result(r)) == submit_step(old(self)@, submission@, submitted_at_unix_ms),
    {
        validate_submission(submission)?;
        match self.find_key(&submission.idempotency_key) {
            Some(k) => {
                let stored_job_id = copy_string(&self.keys[k].job_id);
                match self.read(stored_job_id.as_str()) {
                    Err(e) => Err(e),
                    Ok(None) => {
                        let mut m = String::from_str("idempotency key points to missing job: ");
                        push_str(&mut m, stored_job_id.as_str());
                        Err(JobStoreError::CorruptData(m))
                    },
                    Ok(Some(i)) => {
                        if !self.jobs[i].matches_submission(submission) {
                            return Err(
                                JobStoreError::IdempotencyConflict {
                                    stored_job_id,
                                    requested_job_id: copy_string(&submission.job_id),
                                },
                            );
                        }
                        Ok(SubmitResult { job: self.jobs[i].copied(), created: false })
                    },
                }
            },
            None => {
                match self.read(submission.job_id.as_str()) {
                    Err(e) => Err(e),
                    Ok(Some(_)) => Err(JobStoreError::JobIdConflict { job_id: copy_string(&submission.job_id) }),
                    Ok(None) => {
                        let stored = StoredJob {
                            job_id: copy_string(&submission.job_id),
                            submitter_device_id: copy_string(&submission.submitter_device_id),
                            manifest_hash: submission.manifest_hash,
                            state: JobState::Submitted,
                            submitted_at_unix_ms,
                            planning_at_unix_ms: None,
                            queued_at_unix_ms: None,
                            staging_at_unix_ms: None,
                            deadline_unix_ms: submission.deadline_unix_ms,
                            max_queue_duration_ms: submission.max_queue_duration_ms,
                            plan_id: None,
                            queue_failure: None,
                            failed_at_unix_ms: None,
                            running_at_unix_ms: None,
                            run_terminal: None,
                            worker_reported_finished_at_unix_ms: None,
                            requeue_count: 0,
                            resume_checkpoint: None,
                            revision: 0,
                        };
                        let binding = KeyBinding {
                            key: submission.idempotency_key,
                            job_id: copy_string(&submission.job_id),
                        };
                        proof {
                            lemma_table_push(self.jobs@, job_key(), job_val(), stored);
                            lemma_table_push(self.keys@, binding_key(), binding_val(), binding);
                        }
                        let result = stored.copied();
                        self.jobs.push(stored);
                        self.keys.push(binding);
                        proof {
                            assert(result@ =~= new_job(submission@, submitted_at_unix_ms));
                        }
                        Ok(SubmitResult { job: result, created: true })
                    },
                }
            },
        }
    }
}

impl CoordinatorJobStore {
    /// Puts a Job read back from durable rows into the store, with the
    /// idempotency key of its submission. A Job id or key already present is
    /// refused and nothing changes.
    pub fn restore(&mut self, job: StoredJob, idempotency_key: [u8; 16]) -> (r: Result<(), JobStoreError>)
        requires
            old(self).wf(),
        ensures
            final(self).wf(),
            if old(self)@.jobs.contains_key(job.job_id@) || old(self)@.keys.contains_key(idempotency_key@) {
                r is Err && final(self)@ == old(self)@
            } else {
                r is Ok && final(self)@ == (JobStoreView {
                    jobs: old(self)@.jobs.insert(job.job_id@, job@),
                    keys: old(self)@.keys.insert(idempotency_key@, job.job_id@),
                    manifests: old(self)@.manifests,
                })
            },
    {
        if self.find(job.job_id.as_str()).is_some() {
            return Err(JobStoreError::JobIdConflict { job_id: copy_string(&job.job_id) });
        }
        match self.find_key(&idempotency_key) {
            Some(k) => {
                return Err(
                    JobStoreError::IdempotencyConflict {
                        stored_job_id: copy_string(&self.keys[k].job_id),
                        requested_job_id: copy_string(&job.job_id),
                    },
                );
            },
            None => {},
        }
        let binding = KeyBinding { key: idempotency_key, job_id: copy_string(&job.job_id) };
        proof {
            lemma_table_push(self.jobs@, job_key(), job_val(), job);
            lemma_table_push(self.keys@, binding_key(), binding_val(), binding);
        }
        self.jobs.push(job);
        self.keys.push(binding);
        Ok(())
    }
}

/// See `manifest_identity_error`.
pub fn validate_manifest_identity(submission: &AcceptedJobSubmission, manifest: &JobManifestFacts, verified_signer_id: &str) -> (r:
    Result<(), JobStoreError>)
    ensures
        match manifest_identity_error(submission@, manifest@, verified_signer_id@) {
            None => r is Ok,
            Some(e) => r matches Err(x) && x@ == e,
        },
{
    if !str_eq(manifest.job_id.as_str(), submission.job_id.as_str()) {
        return Err(JobStoreError::ManifestIdentityMismatch("job_id"));
    }
    if !str_eq(manifest.submitter_device_id.as_str(), submission.submitter_device_id.as_str()) {
        return Err(JobStoreError::ManifestIdentityMismatch("submitter_device_id"));
    }
    if !str_eq(verified_signer_id, submission.submitter_device_id.as_str()) {
        return Err(JobStoreError::ManifestIdentityMismatch("verified signer_id"));
    }
    Ok(())
}

fn manifest_corrupt(job_id: &String, kind: ManifestCorruption) -> (e: JobStoreError)
    ensures
        e@ == (JobErrorView::ManifestCorrupt { job_id: job_id@, kind }),
{
    JobStoreError::ManifestCorrupt { job_id: copy_string(job_id), kind }
}

impl CoordinatorJobStore {
    fn find_manifest(&self, job_id: &str) -> (r: Option<usize>)
        requires
            keys_unique(self.manifests@, manifest_row_key()),
        ensures
            match r {
                Some(i) => i < self.manifests@.len() && self@.manifests.contains_key(job_id@)
                    && self@.manifests[job_id@] == manifest_row_val()(self.manifests@[i as int]),
                None => !self@.manifests.contains_key(job_id@),
            },
    {
        let mut i: usize = 0;
        while i < self.manifests.len()
            invariant
                keys_unique(self.manifests@, manifest_row_key()),
                i <= self.manifests@.len(),
                forall|k: int| 0 <= k < i ==> manifest_row_key()(#[trigger] self.manifests@[k]) != job_id@,
            decreases self.manifests@.len() - i,
        {
            if str_eq(self.manifests[i].job_id.as_str(), job_id) {
                proof {
                    lemma_table_at(self.manifests@, manifest_row_key(), manifest_row_val(), i as int);
                }
                return Some(i);
            }
            i = i + 1;
        }
        proof {
            lemma_table_absent(self.manifests@, manifest_row_key(), manifest_row_val(), job_id@);
        }
        None
    }

    /// See `binding_of`.
    fn binding_for(&self, job: &StoredJob) -> (r: Result<StoredManifestBinding, JobStoreError>)
        requires
            keys_unique(self.manifests@, manifest_row_key()),
        ensures
            match binding_of(self@.manifests, job@) {
                Ok(b) => r matches Ok(x) && x@ == b,
                Err(e) => r matches Err(x) && x@ == e,
            },
    {
        let i = match self.find_manifest(job.job_id.as_str()) {
            None => {
                return Err(JobStoreError::LegacyManifestMissing { job_id: copy_string(&job.job_id) });
            },
            Some(i) => i,
        };
        let row = &self.manifests[i];
        if row.body.len() == 0 {
            return Err(manifest_corrupt(&job.job_id, ManifestCorruption::EmptyBody));
        }
        let decoded = match &row.decoded {
            None => {
                return Err(manifest_corrupt(&job.job_id, ManifestCorruption::UndecodableBody));
            },
            Some(d) => d,
        };
        if !str_eq(decoded.job_id.as_str(), job.job_id.as_str()) {
            return Err(manifest_corrupt(&job.job_id, ManifestCorruption::JobIdMismatch));
        }
        if !str_eq(decoded.submitter_device_id.as_str(), job.submitter_device_id.as_str()) {
            return Err(manifest_corrupt(&job.job_id, ManifestCorruption::SubmitterDeviceIdMismatch));
        }
        if !str_eq(row.signer_id.as_str(), job.submitter_device_id.as_str()) {
            return Err(manifest_corrupt(&job.job_id, ManifestCorruption::SignerIdMismatch));
        }
        if !same_hash(&row.derived_hash, &job.manifest_hash) {
            return Err(manifest_corrupt(&job.job_id, ManifestCorruption::HashMismatch));
        }
        Ok(
            StoredManifestBinding {
                manifest_body: copy_bytes(&row.body),
                manifest_hash: row.derived_hash,
                signer_id_at_submission: copy_string(&row.signer_id),
            },
        )
    }

    /// The durable manifest binding of a Job, without any claim that its
    /// signature is still valid (see `binding_of`). A Job that is not stored
    /// has none; a corrupt Job is refused.
    pub fn get_manifest_binding(&self, job_id: &str) -> (r: Result<Option<StoredManifestBinding>, JobStoreError>)
        requires
            self.wf(),
        ensures
            match read_job(self@.jobs, job_id@) {
                Err(e) => r matches Err(x) && x@ == e,
                Ok(None) => r matches Ok(None),
                Ok(Some(j)) => match binding_of(self@.manifests, j) {
                    Ok(b) => r matches Ok(Some(x)) && x@ == b,
                    Err(e) => r matches Err(x) && x@ == e,
                },
            },
    {
        match self.read(job_id) {
            Err(e) => Err(e),
            Ok(None) => Ok(None),
            Ok(Some(i)) => match self.binding_for(&self.jobs[i]) {
                Ok(b) => Ok(Some(b)),
                Err(e) => Err(e),
            },
        }
    }

    /// Creates a Job bound to the body of its verified manifest (see
    /// `submit_manifest_step`): the Job, the manifest row and the
    /// idempotency key are stored together or not at all, and an exact
    /// retry returns the first record.
    pub fn submit_verified_manifest(
        &mut self,
        submission: &AcceptedJobSubmission,
        manifest: &VerifiedJobManifest,
        submitted_at_unix_ms: u64,
    ) -> (r: Result<ManifestBoundSubmitResult, JobStoreError>)
        requires
            old(self).wf(),
        ensures
            final(self).wf(),
            (final(self)@, manifest_submit_result(r)) == submit_manifest_step(
                old(self)@,
                submission@,
                manifest@,
                submitted_at_unix_ms,
            ),
    {
        validate_submission(submission)?;
        validate_manifest_identity(submission, &manifest.facts, manifest.signer_id.as_str())?;
        if !same_hash(&submission.manifest_hash, &manifest.derived_hash) {
            return Err(JobStoreError::ManifestHashMismatch);
        }
        match self.find_key(&submission.idempotency_key) {
            Some(k) => {
                let stored_job_id = copy_string(&self.keys[k].job_id);
                match self.read(stored_job_id.as_str()) {
                    Err(e) => Err(e),
                    Ok(None) => {
                        let mut m = String::from_str("idempotency key points to missing job: ");
                        push_str(&mut m, stored_job_id.as_str());
                        Err(JobStoreError::CorruptData(m))
                    },
                    Ok(Some(i)) => {
                        if !self.jobs[i].matches_submission(submission) {
                            return Err(
                                JobStoreError::IdempotencyConflict {
                                    stored_job_id,
                                    requested_job_id: copy_string(&submission.job_id),
                                },
                            );
                        }
                        let binding = self.binding_for(&self.jobs[i])?;
                        if !same_bytes(&binding.manifest_body, &manifest.body) || !str_eq(
                            binding.signer_id_at_submission.as_str(),
                            manifest.signer_id.as_str(),
                        ) {
                            return Err(
                                JobStoreError::IdempotencyConflict {
                                    stored_job_id,
                                    requested_job_id: copy_string(&submission.job_id),
                                },
                            );
                        }
                        Ok(ManifestBoundSubmitResult { job: self.jobs[i].copied(), binding, created: false })
                    },
                }
            },
            None => {
                match self.read(submission.job_id.as_str()) {
                    Err(e) => Err(e),
                    Ok(Some(_)) => Err(JobStoreError::JobIdConflict { job_id: copy_string(&submission.job_id) }),
                    Ok(None) => {
                        let stored = StoredJob {
                            job_id: copy_string(&submission.job_id),
                            submitter_device_id: copy_string(&submission.submitter_device_id),
                            manifest_hash: manifest.derived_hash,
                            state: JobState::Submitted,
                            submitted_at_unix_ms,
                            planning_at_unix_ms: None,
                            queued_at_unix_ms: None,
                            staging_at_unix_ms: None,
                            deadline_unix_ms: submission.deadline_unix_ms,
                            max_queue_duration_ms: submission.max_queue_duration_ms,
                            plan_id: None,
                            queue_failure: None,
                            failed_at_unix_ms: None,
                            running_at_unix_ms: None,
                            run_terminal: None,
                            worker_reported_finished_at_unix_ms: None,
                            requeue_count: 0,
                            resume_checkpoint: None,
                            revision: 0,
                        };
                        let key = KeyBinding { key: submission.idempotency_key, job_id: copy_string(&submission.job_id) };
                        let row = ManifestRow {
                            job_id: copy_string(&submission.job_id),
                            signer_id: copy_string(&manifest.signer_id),
                            body: copy_bytes(&manifest.body),
                            decoded: Some(
                                JobManifestFacts {
                                    job_id: copy_string(&manifest.facts.job_id),
                                    submitter_device_id: copy_string(&manifest.facts.submitter_device_id),
                                },
                            ),
                            derived_hash: manifest.derived_hash,
                        };
                        proof {
                            lemma_table_push(self.jobs@, job_key(), job_val(), stored);
                            lemma_table_push(self.keys@, binding_key(), binding_val(), key);
                            lemma_table_push(self.manifests@, manifest_row_key(), manifest_row_val(), row);
                        }
                        let result = stored.copied();
                        self.jobs.push(stored);
                        self.keys.push(key);
                        self.manifests.push(row);
                        proof {
                            assert(result@ =~= new_job(submission@, submitted_at_unix_ms));
                        }
                        Ok(
                            ManifestBoundSubmitResult {
                                job: result,
                                binding: StoredManifestBinding {
                                    manifest_body: copy_bytes(&manifest.body),
                                    manifest_hash: manifest.derived_hash,
                                    signer_id_at_submission: copy_string(&manifest.signer_id),
                                },
                                created: true,
                            },
                        )
                    },
                }
            },
        }
    }

    /// Puts a manifest row read back from durable storage into the store:
    /// the signer verified at submission, the body, the identity it decodes
    /// to (`None`: it does not decode) and the hash derived from it. A row
    /// for a Job that is not stored, or that already has one, is refused and
    /// nothing changes.
    pub fn restore_manifest(
        &mut self,
        job_id: &str,
        signer_id: &str,
        body: Vec<u8>,
        decoded: Option<JobManifestFacts>,
        derived_hash: [u8; 32],
    ) -> (r: Result<(), JobStoreError>)
        requires
            old(self).wf(),
        ensures
            final(self).wf(),
            if !old(self)@.jobs.contains_key(job_id@) || old(self)@.manifests.contains_key(job_id@) {
                r is Err && final(self)@ == old(self)@
            } else {
                r is Ok && final(self)@ == (JobStoreView {
                    jobs: old(self)@.jobs,
                    keys: old(self)@.keys,
                    manifests: old(self)@.manifests.insert(
                        job_id@,
                        ManifestRowView {
                            signer_id: signer_id@,
                            body: body@,
                            decoded: match decoded {
                                Some(d) => Some(d@),
                                None => None,
                            },
                            derived_hash: derived_hash@,
                        },
                    ),
                })
            },
    {
        if self.find(job_id).is_none() {
            let mut m = String::from_str("a manifest row names a job that is not stored: ");
            push_str(&mut m, job_id);
            return Err(JobStoreError::CorruptData(m));
        }
        if self.find_manifest(job_id).is_some() {
            let mut m = String::from_str("a manifest row is already stored for job ");
            push_str(&mut m, job_id);
            return Err(JobStoreError::CorruptData(m));
        }
        let row = ManifestRow {
            job_id: String::from_str(job_id),
            signer_id: String::from_str(signer_id),
            body,
            decoded,
            derived_hash,
        };
        proof {
            lemma_table_push(self.manifests@, manifest_row_key(), manifest_row_val(), row);
        }
        self.manifests.push(row);
        Ok(())
    }
}

fn same_key(a: &[u8; 16], b: &[u8; 16]) -> (r: bool)
    ensures
        r == (a@ == b@),
{
    let mut i: usize = 0;
    while i < 16
        invariant
            i <= 16,
            a@.len() == 16,
            b@.len() == 16,
            forall|k: int| 0 <= k < i ==> a@[k] == b@[k],
        decreases 16 - i,
    {
        if a[i] != b[i] {
            return false;
        }
        i = i + 1;
    }
    assert(a@ =~= b@);
    true
}

fn revision_overflow_error() -> (e: JobStoreError)
    ensures
        e@ == revision_overflow(),
{
    JobStoreError::CorruptData(String::from_str("job revision overflow"))
}

fn apply_start_planning(job: &StoredJob, at_unix_ms: u64) -> (r: Result<StoredJob, JobStoreError>)
    ensures
        job_result(r) == start_planning_apply(job@, at_unix_ms),
{
    if job.state == JobState::Planning {
        return Ok(job.copied());
    }
    if job.state != JobState::Submitted {
        return Err(JobStoreError::InvalidTransition { from: job.state, to: JobState::Planning });
    }
    ensure_not_before(at_unix_ms, job.submitted_at_unix_ms)?;
    if job.revision == u64::MAX {
        return Err(revision_overflow_error());
    }
    let mut next = job.copied();
    next.state = JobState::Planning;
    next.planning_at_unix_ms = Some(at_unix_ms);
    next.revision = job.revision + 1;
    proof {
        assert(next@ =~= (JobView {
            state: JobState::Planning,
            planning_at_unix_ms: Some(at_unix_ms),
            revision: (job.revision + 1) as u64,
            ..job@
        }));
    }
    Ok(next)
}

fn apply_queued_retry(job: &StoredJob, plan_id: &str) -> (r: Result<StoredJob, JobStoreError>)
    ensures
        job_result(r) == queued_retry(job@, plan_id@),
{
    match &job.plan_id {
        Some(p) => if str_eq(p.as_str(), plan_id) {
            Ok(job.copied())
        } else {
            Err(
                JobStoreError::PlanConflict {
                    stored_plan_id: copy_string(p),
                    requested_plan_id: String::from_str(plan_id),
                },
            )
        },
        None => {
            let empty = String::new();
            proof {
                assert(empty@ =~= Seq::<char>::empty());
            }
            Err(JobStoreError::PlanConflict { stored_plan_id: empty, requested_plan_id: String::from_str(plan_id) })
        },
    }
}

fn apply_queue_planned(job: &StoredJob, plan_id: &str, at_unix_ms: u64) -> (r: Result<StoredJob, JobStoreError>)
    ensures
        job_result(r) == queue_planned(job@, plan_id@, at_unix_ms),
{
    if job.state != JobState::Planning {
        return Err(JobStoreError::InvalidTransition { from: job.state, to: JobState::Queued });
    }
    let planning_at = match job.planning_at_unix_ms {
        Some(t) => t,
        None => {
            return Err(JobStoreError::CorruptData(String::from_str("PLANNING job has no planning timestamp")));
        },
    };
    ensure_not_before(at_unix_ms, planning_at)?;
    if job.revision == u64::MAX {
        return Err(revision_overflow_error());
    }
    let mut next = job.copied();
    next.state = JobState::Queued;
    next.queued_at_unix_ms = Some(at_unix_ms);
    next.plan_id = Some(String::from_str(plan_id));
    next.revision = job.revision + 1;
    proof {
        assert(next@ =~= (JobView {
            state: JobState::Queued,
            queued_at_unix_ms: Some(at_unix_ms),
            plan_id: Some(plan_id@),
            revision: (job.revision + 1) as u64,
            ..job@
        }));
    }
    Ok(next)
}

fn apply_enqueue(job: &StoredJob, plan_id: &str, at_unix_ms: u64) -> (r: Result<StoredJob, JobStoreError>)
    ensures
        job_result(r) == enqueue_apply(job@, plan_id@, at_unix_ms),
{
    if job.state == JobState::Queued {
        apply_queued_retry(job, plan_id)
    } else {
        apply_queue_planned(job, plan_id, at_unix_ms)
    }
}

fn apply_plan_and_enqueue(job: &StoredJob, plan_id: &str, at_unix_ms: u64) -> (r: Result<StoredJob, JobStoreError>)
    ensures
        job_result(r) == plan_and_enqueue_apply(job@, plan_id@, at_unix_ms),
{
    if job.state == JobState::Queued {
        apply_queued_retry(job, plan_id)
    } else if job.state == JobState::Submitted {
        let planning = apply_start_planning(job, at_unix_ms)?;
        apply_queue_planned(&planning, plan_id, at_unix_ms)
    } else {
        apply_queue_planned(job, plan_id, at_unix_ms)
    }
}

fn apply_fail_queued(job: &StoredJob, failure: &QueueFailure, at_unix_ms: u64) -> (r: Result<StoredJob, JobStoreError>)
    ensures
        job_result(r) == fail_queued_apply(job@, failure@, at_unix_ms),
{
    if job.state == JobState::Failed {
        if let Some(stored) = &job.queue_failure {
            if same_failure(stored, failure) {
                return Ok(job.copied());
            }
        }
    }
    if job.state != JobState::Queued {
        return Err(JobStoreError::InvalidTransition { from: job.state, to: JobState::Failed });
    }
    let queued_at = match job.queued_at_unix_ms {
        Some(t) => t,
        None => {
            return Err(JobStoreError::CorruptData(String::from_str("QUEUED job has no queue timestamp")));
        },
    };
    ensure_not_before(at_unix_ms, queued_at)?;
    match failure {
        QueueFailure::DeadlinePassed => match job.deadline_unix_ms {
            None => {
                return Err(JobStoreError::GuardNotMet("Job has no deadline"));
            },
            Some(deadline) => {
                if at_unix_ms <= deadline {
                    return Err(JobStoreError::GuardNotMet("now must be greater than deadline"));
                }
            },
        },
        QueueFailure::QueueTimeout => match job.max_queue_duration_ms {
            None => {
                return Err(JobStoreError::GuardNotMet("Job has no independent queue timeout"));
            },
            Some(limit) => {
                let elapsed = at_unix_ms - queued_at;
                if elapsed <= limit {
                    return Err(
                        JobStoreError::GuardNotMet("queue wait must be greater than max queue duration"),
                    );
                }
            },
        },
        QueueFailure::PermanentlyInfeasible { .. } => {},
    }
    if job.revision == u64::MAX {
        return Err(revision_overflow_error());
    }
    let mut next = job.copied();
    next.state = JobState::Failed;
    next.queue_failure = Some(failure.copied());
    next.failed_at_unix_ms = Some(at_unix_ms);
    next.revision = job.revision + 1;
    proof {
        assert(next@ =~= (JobView {
            state: JobState::Failed,
            queue_failure: Some(failure@),
            failed_at_unix_ms: Some(at_unix_ms),
            revision: (job.revision + 1) as u64,
            ..job@
        }));
    }
    Ok(next)
}

impl CoordinatorJobStore {
    /// Applies only `SUBMITTED -> PLANNING`. Repeating it after an ambiguous
    /// answer returns the first record.
    pub fn start_planning(&mut self, job_id: &str, at_unix_ms: u64) -> (r: Result<StoredJob, JobStoreError>)
        requires
            old(self).wf(),
        ensures
            final(self).wf(),
            (final(self)@, job_result(r)) == start_planning_step(old(self)@, job_id@, at_unix_ms),
    {
        let i = match self.read(job_id)? {
            Some(i) => i,
            None => {
                return Err(JobStoreError::NotFound);
            },
        };
        let next = apply_start_planning(&self.jobs[i], at_unix_ms)?;
        self.commit(i, next.copied());
        Ok(next)
    }

    /// Applies only `PLANNING -> QUEUED` (a plan is ready). A retry must name
    /// the same plan.
    pub fn enqueue(&mut self, job_id: &str, plan_id: &str, at_unix_ms: u64) -> (r: Result<StoredJob, JobStoreError>)
        requires
            old(self).wf(),
        ensures
            final(self).wf(),
            (final(self)@, job_result(r)) == enqueue_step(old(self)@, job_id@, plan_id@, at_unix_ms),
    {
        if blank(plan_id) {
            return Err(JobStoreError::InvalidInput("plan_id"));
        }
        let i = match self.read(job_id)? {
            Some(i) => i,
            None => {
                return Err(JobStoreError::NotFound);
            },
        };
        let next = apply_enqueue(&self.jobs[i], plan_id, at_unix_ms)?;
        self.commit(i, next.copied());
        Ok(next)
    }

    /// `SUBMITTED -> PLANNING -> QUEUED` as one transaction: both timestamps
    /// and two revisions, or nothing at all. A Job left in PLANNING is only
    /// moved on; a QUEUED Job with the same plan is returned unchanged.
    pub fn plan_and_enqueue(&mut self, job_id: &str, plan_id: &str, at_unix_ms: u64) -> (r: Result<
        StoredJob,
        JobStoreError,
    >)
        requires
            old(self).wf(),
        ensures
            final(self).wf(),
            (final(self)@, job_result(r)) == plan_and_enqueue_step(old(self)@, job_id@, plan_id@, at_unix_ms),
    {
        if blank(plan_id) {
            return Err(JobStoreError::InvalidInput("plan_id"));
        }
        let i = match self.read(job_id)? {
            Some(i) => i,
            None => {
                return Err(JobStoreError::NotFound);
            },
        };
        let next = apply_plan_and_enqueue(&self.jobs[i], plan_id, at_unix_ms)?;
        self.commit(i, next.copied());
        Ok(next)
    }

    /// Records one of the three distinct `QUEUED -> FAILED` outcomes, with
    /// its guard checked against the same state it changes. A permanent
    /// infeasibility needs a reason that is not blank.
    pub fn fail_queued(&mut self, job_id: &str, failure: QueueFailure, at_unix_ms: u64) -> (r: Result<
        StoredJob,
        JobStoreError,
    >)
        requires
            old(self).wf(),
        ensures
            final(self).wf(),
            (final(self)@, job_result(r)) == fail_queued_step(old(self)@, job_id@, failure@, at_unix_ms),
    {
        if let QueueFailure::PermanentlyInfeasible { reason } = &failure {
            if blank(reason.as_str()) {
                return Err(JobStoreError::InvalidInput("permanent infeasibility reason"));
            }
        }
        let i = match self.read(job_id)? {
            Some(i) => i,
            None => {
                return Err(JobStoreError::NotFound);
            },
        };
        let next = apply_fail_queued(&self.jobs[i], &failure, at_unix_ms)?;
        self.commit(i, next.copied());
        Ok(next)
    }
}

pub open spec fn run_revision_overflow() -> JobErrorView {
    JobErrorView::CorruptData("revision overflow"@)
}

pub open spec fn requeue_overflow() -> JobErrorView {
    JobErrorView::CorruptData("requeue_count overflow"@)
}

/// The state a lost node leaves the Job in, along the normative paths:
/// `STAGING -> QUEUED` (lost before the ACK, nothing ran),
/// `RUNNING -> INTERRUPTED -> REPLANNING -> QUEUED` when a committed
/// checkpoint exists, `RUNNING -> INTERRUPTED -> FAILED` when none does.
pub open spec fn node_lost_target(j: JobView, has_resume: bool) -> Option<JobState> {
    match j.state {
        JobState::Staging => Some(JobState::Queued),
        JobState::Running => if has_resume {
            Some(JobState::Queued)
        } else {
            Some(JobState::Failed)
        },
        _ => None,
    }
}

/// Node loss. Back in the queue the Job keeps its plan and its original
/// queue time, forgets staging and running times, counts the requeue, and
/// takes the new resume point when one was chosen (otherwise keeps the one
/// it had). Without a checkpoint it fails with NO_COMMITTED_CHECKPOINT and
/// the worker-clock hint as its end time.
pub open spec fn node_lost_apply(j: JobView, resume: Option<Seq<u8>>, worker_clock_hint_unix_ms: u64) -> Result<
    JobView,
    JobErrorView,
> {
    match node_lost_target(j, resume is Some) {
        None => Err(JobErrorView::InvalidTransition { from: j.state, to: JobState::Queued }),
        Some(JobState::Queued) => if j.requeue_count == u64::MAX {
            Err(requeue_overflow())
        } else if j.revision == u64::MAX {
            Err(run_revision_overflow())
        } else {
            Ok(
                JobView {
                    state: JobState::Queued,
                    staging_at_unix_ms: None,
                    running_at_unix_ms: None,
                    requeue_count: (j.requeue_count + 1) as u64,
                    resume_checkpoint: if resume is Some {
                        resume
                    } else {
                        j.resume_checkpoint
                    },
                    revision: (j.revision + 1) as u64,
                    ..j
                },
            )
        },
        Some(_) => if j.revision == u64::MAX {
            Err(run_revision_overflow())
        } else {
            Ok(
                JobView {
                    state: JobState::Failed,
                    run_terminal: Some(RunTerminal::NoCommittedCheckpoint),
                    worker_reported_finished_at_unix_ms: Some(worker_clock_hint_unix_ms),
                    revision: (j.revision + 1) as u64,
                    ..j
                },
            )
        },
    }
}

pub open spec fn node_lost_step(
    v: JobStoreView,
    job_id: Seq<char>,
    resume: Option<Seq<u8>>,
    worker_clock_hint_unix_ms: u64,
) -> (JobStoreView, Result<JobView, JobErrorView>) {
    on_job(v, job_id, |j: JobView| node_lost_apply(j, resume, worker_clock_hint_unix_ms))
}

/// The owner took the GPU back: `RUNNING -> PAUSED` (OWNER_PREEMPT). The
/// requeue is counted so the next attempt gets a new identifier; the resume
/// point is the new one when one was chosen.
pub open spec fn preempt_apply(j: JobView, resume: Option<Seq<u8>>) -> Result<JobView, JobErrorView> {
    if j.state != JobState::Running {
        Err(JobErrorView::InvalidTransition { from: j.state, to: JobState::Paused })
    } else if j.requeue_count == u64::MAX {
        Err(requeue_overflow())
    } else if j.revision == u64::MAX {
        Err(run_revision_overflow())
    } else {
        Ok(
            JobView {
                state: JobState::Paused,
                requeue_count: (j.requeue_count + 1) as u64,
                resume_checkpoint: if resume is Some {
                    resume
                } else {
                    j.resume_checkpoint
                },
                revision: (j.revision + 1) as u64,
                ..j
            },
        )
    }
}

pub open spec fn preempt_step(v: JobStoreView, job_id: Seq<char>, resume: Option<Seq<u8>>) -> (JobStoreView, Result<JobView, JobErrorView>) {
    on_job(v, job_id, |j: JobView| preempt_apply(j, resume))
}

pub open spec fn opt_str(o: Option<&str>) -> Option<Seq<char>> {
    match o {
        Some(s) => Some(s@),
        None => None,
    }
}

/// The Job is in a run state and `attempt_id` is its latest attempt.
pub open spec fn current_attempt(j: JobView, attempt_id: Seq<char>, latest_attempt_id: Option<Seq<char>>) -> bool {
    (j.state == JobState::Staging || j.state == JobState::Running) && latest_attempt_id == Some(attempt_id)
}

/// Whether an ACK belongs to the Job's current attempt; the Job is not
/// moved. A clock before the staging time of a STAGING Job is a rollback.
pub open spec fn ack_check(
    jobs: JobMap,
    job_id: Seq<char>,
    attempt_id: Seq<char>,
    latest_attempt_id: Option<Seq<char>>,
    now: u64,
) -> Result<bool, JobErrorView> {
    match read_job(jobs, job_id) {
        Err(e) => Err(e),
        Ok(None) => Err(JobErrorView::NotFound),
        Ok(Some(j)) => if !current_attempt(j, attempt_id, latest_attempt_id) {
            Ok(false)
        } else if j.state == JobState::Staging && (j.staging_at_unix_ms matches Some(s) && now < s) {
            Err(JobErrorView::ClockRollback { earlier_unix_ms: now, later_unix_ms: j.staging_at_unix_ms->0 })
        } else {
            Ok(true)
        },
    }
}

/// The first progress signal of the current attempt moves the Job
/// `STAGING -> RUNNING` (STAGING_COMPLETE) with the coordinator time; a
/// RUNNING Job stays as it is. `false`: not the current attempt or not in a
/// run state, nothing changed.
pub open spec fn staging_complete_step(
    v: JobStoreView,
    job_id: Seq<char>,
    attempt_id: Seq<char>,
    latest_attempt_id: Option<Seq<char>>,
    now: u64,
) -> (JobStoreView, Result<bool, JobErrorView>) {
    match read_job(v.jobs, job_id) {
        Err(e) => (v, Err(e)),
        Ok(None) => (v, Err(JobErrorView::NotFound)),
        Ok(Some(j)) => if !current_attempt(j, attempt_id, latest_attempt_id) {
            (v, Ok(false))
        } else if j.state == JobState::Running {
            (v, Ok(true))
        } else if j.staging_at_unix_ms matches Some(s) && now < s {
            (v, Err(JobErrorView::ClockRollback { earlier_unix_ms: now, later_unix_ms: j.staging_at_unix_ms->0 }))
        } else if j.revision == u64::MAX {
            (v, Err(run_revision_overflow()))
        } else {
            (
                JobStoreView {
                    jobs: v.jobs.insert(
                        job_id,
                        JobView {
                            state: JobState::Running,
                            running_at_unix_ms: Some(now),
                            revision: (j.revision + 1) as u64,
                            ..j
                        },
                    ),
                    keys: v.keys,
                    manifests: v.manifests,
                },
                Ok(true),
            )
        },
    }
}

/// Where the end of an attempt takes the Job, and the trigger of the last
/// edge: a completed attempt completes it; a failed one that ran fails it
/// with UNRECOVERABLE_ERROR; one that never ran, or was cancelled (the agent
/// refused the Grant), fails it with STAGING_FAILED from STAGING and with
/// UNRECOVERABLE_ERROR from RUNNING. Other attempt states do not end it.
pub open spec fn attempt_end_target(state: JobState, attempt_final: AttemptState, attempt_ran: bool) -> Option<
    (JobState, RunTerminal),
> {
    match attempt_final {
        AttemptState::Completed => Some((JobState::Completed, RunTerminal::AttemptCompleted)),
        AttemptState::Failed => if attempt_ran || state == JobState::Running {
            Some((JobState::Failed, RunTerminal::UnrecoverableError))
        } else {
            Some((JobState::Failed, RunTerminal::StagingFailed))
        },
        AttemptState::Cancelled => if state == JobState::Running {
            Some((JobState::Failed, RunTerminal::UnrecoverableError))
        } else {
            Some((JobState::Failed, RunTerminal::StagingFailed))
        },
        _ => None,
    }
}

/// The end of the Job's latest attempt ends the Job; a stale attempt's end,
/// or a Job not in a run state, changes nothing (`None`).
pub open spec fn attempt_end_step(
    v: JobStoreView,
    job_id: Seq<char>,
    attempt_id: Seq<char>,
    attempt_final: AttemptState,
    attempt_ran: bool,
    worker_reported_finished_at_unix_ms: u64,
    latest_attempt_id: Option<Seq<char>>,
) -> (JobStoreView, Result<Option<JobView>, JobErrorView>) {
    match read_job(v.jobs, job_id) {
        Err(e) => (v, Err(e)),
        Ok(None) => (v, Err(JobErrorView::NotFound)),
        Ok(Some(j)) => if !current_attempt(j, attempt_id, latest_attempt_id) {
            (v, Ok(None))
        } else {
            match attempt_end_target(j.state, attempt_final, attempt_ran) {
                None => (v, Ok(None)),
                Some((to, terminal)) => if j.revision == u64::MAX {
                    (v, Err(run_revision_overflow()))
                } else {
                    let n = JobView {
                        state: to,
                        run_terminal: Some(terminal),
                        worker_reported_finished_at_unix_ms: Some(worker_reported_finished_at_unix_ms),
                        revision: (j.revision + 1) as u64,
                        ..j
                    };
                    (JobStoreView { jobs: v.jobs.insert(job_id, n), keys: v.keys, manifests: v.manifests }, Ok(Some(n)))
                },
            }
        },
    }
}

fn run_revision_overflow_error() -> (e: JobStoreError)
    ensures
        e@ == run_revision_overflow(),
{
    JobStoreError::CorruptData(String::from_str("revision overflow"))
}

fn requeue_overflow_error() -> (e: JobStoreError)
    ensures
        e@ == requeue_overflow(),
{
    JobStoreError::CorruptData(String::from_str("requeue_count overflow"))
}

fn apply_node_lost(job: &StoredJob, resume: Option<Vec<u8>>, worker_clock_hint_unix_ms: u64) -> (r: Result<
    StoredJob,
    JobStoreError,
>)
    ensures
        job_result(r) == node_lost_apply(job@, opt_bytes(resume), worker_clock_hint_unix_ms),
{
    let to_queue = match job.state {
        JobState::Staging => true,
        JobState::Running => resume.is_some(),
        _ => {
            return Err(JobStoreError::InvalidTransition { from: job.state, to: JobState::Queued });
        },
    };
    let mut next = job.copied();
    if to_queue {
        if job.requeue_count == u64::MAX {
            return Err(requeue_overflow_error());
        }
        if job.revision == u64::MAX {
            return Err(run_revision_overflow_error());
        }
        next.state = JobState::Queued;
        next.staging_at_unix_ms = None;
        next.running_at_unix_ms = None;
        next.requeue_count = job.requeue_count + 1;
        if resume.is_some() {
            next.resume_checkpoint = resume;
        }
        next.revision = job.revision + 1;
    } else {
        if job.revision == u64::MAX {
            return Err(run_revision_overflow_error());
        }
        next.state = JobState::Failed;
        next.run_terminal = Some(RunTerminal::NoCommittedCheckpoint);
        next.worker_reported_finished_at_unix_ms = Some(worker_clock_hint_unix_ms);
        next.revision = job.revision + 1;
    }
    proof {
        assert(job_result(Ok::<StoredJob, JobStoreError>(next)) =~= node_lost_apply(
            job@,
            opt_bytes(resume),
            worker_clock_hint_unix_ms,
        ));
    }
    Ok(next)
}

fn apply_preempt(job: &StoredJob, resume: Option<Vec<u8>>) -> (r: Result<StoredJob, JobStoreError>)
    ensures
        job_result(r) == preempt_apply(job@, opt_bytes(resume)),
{
    if job.state != JobState::Running {
        return Err(JobStoreError::InvalidTransition { from: job.state, to: JobState::Paused });
    }
    if job.requeue_count == u64::MAX {
        return Err(requeue_overflow_error());
    }
    if job.revision == u64::MAX {
        return Err(run_revision_overflow_error());
    }
    let mut next = job.copied();
    next.state = JobState::Paused;
    next.requeue_count = job.requeue_count + 1;
    if resume.is_some() {
        next.resume_checkpoint = resume;
    }
    next.revision = job.revision + 1;
    proof {
        assert(job_result(Ok::<StoredJob, JobStoreError>(next)) =~= preempt_apply(job@, opt_bytes(resume)));
    }
    Ok(next)
}

fn is_latest(attempt_id: &str, latest_attempt_id: Option<&str>) -> (r: bool)
    ensures
        r == (opt_str(latest_attempt_id) == Some(attempt_id@)),
{
    match latest_attempt_id {
        Some(l) => str_eq(l, attempt_id),
        None => false,
    }
}

impl CoordinatorJobStore {
    /// Takes the Job back to the queue or ends it after its node was lost
    /// (see `node_lost_apply`).
    pub fn requeue_after_node_lost(
        &mut self,
        job_id: &str,
        resume: Option<Vec<u8>>,
        worker_clock_hint_unix_ms: u64,
    ) -> (r: Result<StoredJob, JobStoreError>)
        requires
            old(self).wf(),
        ensures
            final(self).wf(),
            (final(self)@, job_result(r)) == node_lost_step(
                old(self)@,
                job_id@,
                opt_bytes(resume),
                worker_clock_hint_unix_ms,
            ),
    {
        let i = match self.read(job_id)? {
            Some(i) => i,
            None => {
                return Err(JobStoreError::NotFound);
            },
        };
        let next = apply_node_lost(&self.jobs[i], resume, worker_clock_hint_unix_ms)?;
        self.commit(i, next.copied());
        Ok(next)
    }

    /// `RUNNING -> PAUSED` after the owner took the GPU back.
    pub fn pause_for_owner_preempt(&mut self, job_id: &str, resume: Option<Vec<u8>>) -> (r: Result<
        StoredJob,
        JobStoreError,
    >)
        requires
            old(self).wf(),
        ensures
            final(self).wf(),
            (final(self)@, job_result(r)) == preempt_step(old(self)@, job_id@, opt_bytes(resume)),
    {
        let i = match self.read(job_id)? {
            Some(i) => i,
            None => {
                return Err(JobStoreError::NotFound);
            },
        };
        let next = apply_preempt(&self.jobs[i], resume)?;
        self.commit(i, next.copied());
        Ok(next)
    }

    /// Whether an ACK is for the Job's current attempt (the one with the
    /// highest fence); the Job is not moved.
    pub fn ack_is_for_current_attempt(
        &self,
        job_id: &str,
        attempt_id: &str,
        latest_attempt_id: Option<&str>,
        now_unix_ms: u64,
    ) -> (r: Result<bool, JobStoreError>)
        requires
            self.wf(),
        ensures
            match ack_check(self@.jobs, job_id@, attempt_id@, opt_str(latest_attempt_id), now_unix_ms) {
                Ok(b) => r == Ok::<bool, JobStoreError>(b),
                Err(e) => r matches Err(x) && x@ == e,
            },
    {
        let i = match self.read(job_id)? {
            Some(i) => i,
            None => {
                return Err(JobStoreError::NotFound);
            },
        };
        let job = &self.jobs[i];
        if !(job.state == JobState::Staging || job.state == JobState::Running) {
            return Ok(false);
        }
        if !is_latest(attempt_id, latest_attempt_id) {
            return Ok(false);
        }
        if job.state == JobState::Staging {
            if let Some(staging_at) = job.staging_at_unix_ms {
                ensure_not_before(now_unix_ms, staging_at)?;
            }
        }
        Ok(true)
    }

    /// Moves the Job `STAGING -> RUNNING` on the first progress signal of its
    /// current attempt (see `staging_complete_step`).
    pub fn record_staging_complete(
        &mut self,
        job_id: &str,
        attempt_id: &str,
        latest_attempt_id: Option<&str>,
        now_unix_ms: u64,
    ) -> (r: Result<bool, JobStoreError>)
        requires
            old(self).wf(),
        ensures
            final(self).wf(),
            ({
                let (v, s) = staging_complete_step(
                    old(self)@,
                    job_id@,
                    attempt_id@,
                    opt_str(latest_attempt_id),
                    now_unix_ms,
                );
                &&& final(self)@ == v
                &&& match s {
                    Ok(b) => r == Ok::<bool, JobStoreError>(b),
                    Err(e) => r matches Err(x) && x@ == e,
                }
            }),
    {
        let i = match self.read(job_id)? {
            Some(i) => i,
            None => {
                return Err(JobStoreError::NotFound);
            },
        };
        let job = &self.jobs[i];
        if !(job.state == JobState::Staging || job.state == JobState::Running) {
            return Ok(false);
        }
        if !is_latest(attempt_id, latest_attempt_id) {
            return Ok(false);
        }
        if job.state == JobState::Running {
            return Ok(true);
        }
        if let Some(staging_at) = job.staging_at_unix_ms {
            ensure_not_before(now_unix_ms, staging_at)?;
        }
        if job.revision == u64::MAX {
            return Err(run_revision_overflow_error());
        }
        let mut next = job.copied();
        next.state = JobState::Running;
        next.running_at_unix_ms = Some(now_unix_ms);
        next.revision = job.revision + 1;
        proof {
            assert(next@ =~= (JobView {
                state: JobState::Running,
                running_at_unix_ms: Some(now_unix_ms),
                revision: (job.revision + 1) as u64,
                ..job@
            }));
        }
        self.commit(i, next);
        Ok(true)
    }

    /// Carries the end of the Job's latest attempt over to the Job (see
    /// `attempt_end_step`): the report of an older attempt, arriving late
    /// after failover, never ends the newer attempt's Job.
    pub fn follow_attempt_terminal(
        &mut self,
        job_id: &str,
        attempt_id: &str,
        attempt_final: AttemptState,
        attempt_ran: bool,
        worker_reported_finished_at_unix_ms: u64,
        latest_attempt_id: Option<&str>,
    ) -> (r: Result<Option<StoredJob>, JobStoreError>)
        requires
            old(self).wf(),
        ensures
            final(self).wf(),
            ({
                let (v, s) = attempt_end_step(
                    old(self)@,
                    job_id@,
                    attempt_id@,
                    attempt_final,
                    attempt_ran,
                    worker_reported_finished_at_unix_ms,
                    opt_str(latest_attempt_id),
                );
                &&& final(self)@ == v
                &&& match s {
                    Ok(None) => r matches Ok(None),
                    Ok(Some(n)) => r matches Ok(Some(x)) && x@ == n,
                    Err(e) => r matches Err(x) && x@ == e,
                }
            }),
    {
        let i = match self.read(job_id)? {
            Some(i) => i,
            None => {
                return Err(JobStoreError::NotFound);
            },
        };
        let job = &self.jobs[i];
        if !(job.state == JobState::Staging || job.state == JobState::Running) {
            return Ok(None);
        }
        if !is_latest(attempt_id, latest_attempt_id) {
            return Ok(None);
        }
        let (to, terminal) = match attempt_final {
            AttemptState::Completed => (JobState::Completed, RunTerminal::AttemptCompleted),
            AttemptState::Failed => if attempt_ran || job.state == JobState::Running {
                (JobState::Failed, RunTerminal::UnrecoverableError)
            } else {
                (JobState::Failed, RunTerminal::StagingFailed)
            },
            AttemptState::Cancelled => if job.state == JobState::Running {
                (JobState::Failed, RunTerminal::UnrecoverableError)
            } else {
                (JobState::Failed, RunTerminal::StagingFailed)
            },
            _ => {
                return Ok(None);
            },
        };
        if job.revision == u64::MAX {
            return Err(run_revision_overflow_error());
        }
        let mut next = job.copied();
        next.state = to;
        next.run_terminal = Some(terminal);
        next.worker_reported_finished_at_unix_ms = Some(worker_reported_finished_at_unix_ms);
        next.revision = job.revision + 1;
        proof {
            assert(next@ =~= (JobView {
                state: to,
                run_terminal: Some(terminal),
                worker_reported_finished_at_unix_ms: Some(worker_reported_finished_at_unix_ms),
                revision: (job.revision + 1) as u64,
                ..job@
            }));
        }
        let result = next.copied();
        self.commit(i, next);
        Ok(Some(result))
    }
}

/// Which Jobs a listing returns.
#[derive(Debug, Clone, Copy, PartialEq, Eq, Structural)]
pub enum JobListing {
    /// QUEUED Jobs, in queue order.
    Queued,
    /// Jobs that can be placed: QUEUED and preempted PAUSED ones, in queue
    /// order (a preempted Job keeps its original queue time).
    Schedulable,
    /// Jobs in a run state (STAGING, RUNNING), by Job id: what failover scans.
    InRun,
}

pub open spec fn listed(j: JobView, which: JobListing) -> bool {
    match which {
        JobListing::Queued => j.state == JobState::Queued,
        JobListing::Schedulable => j.state == JobState::Queued || j.state == JobState::Paused,
        JobListing::InRun => j.state == JobState::Staging || j.state == JobState::Running,
    }
}

/// `None` before any time, then by time.
pub open spec fn opt_time_lt(x: Option<u64>, y: Option<u64>) -> bool {
    match (x, y) {
        (None, Some(_)) => true,
        (Some(p), Some(q)) => p < q,
        _ => false,
    }
}

/// Queue order: by queue time, the Job id breaking ties (FIFO, deterministic).
pub open spec fn queue_lt(a: JobView, b: JobView) -> bool {
    opt_time_lt(a.queued_at_unix_ms, b.queued_at_unix_ms) || (a.queued_at_unix_ms == b.queued_at_unix_ms
        && lex_lt(a.job_id, b.job_id))
}

/// The order of a listing.
pub open spec fn listing_lt(which: JobListing, a: JobView, b: JobView) -> bool {
    match which {
        JobListing::InRun => lex_lt(a.job_id, b.job_id),
        _ => queue_lt(a, b),
    }
}

proof fn lemma_listing_order(which: JobListing, a: JobView, b: JobView, c: JobView)
    ensures
        !listing_lt(which, a, a),
        listing_lt(which, a, b) && listing_lt(which, b, c) ==> listing_lt(which, a, c),
        a.job_id != b.job_id ==> listing_lt(which, a, b) || listing_lt(which, b, a),
{
    lemma_lex_lt_irreflexive(a.job_id);
    if lex_lt(a.job_id, b.job_id) && lex_lt(b.job_id, c.job_id) {
        lemma_lex_lt_transitive(a.job_id, b.job_id, c.job_id);
    }
    if a.job_id != b.job_id {
        lemma_lex_lt_total(a.job_id, b.job_id);
    }
}

fn opt_time_before(x: Option<u64>, y: Option<u64>) -> (r: bool)
    ensures
        r == opt_time_lt(x, y),
{
    match (x, y) {
        (None, Some(_)) => true,
        (Some(p), Some(q)) => p < q,
        _ => false,
    }
}

fn listing_before(which: JobListing, a: &StoredJob, b: &StoredJob) -> (r: bool)
    ensures
        r == listing_lt(which, a@, b@),
{
    match which {
        JobListing::InRun => str_lt(a.job_id.as_str(), b.job_id.as_str()),
        _ => opt_time_before(a.queued_at_unix_ms, b.queued_at_unix_ms) || (a.queued_at_unix_ms
            == b.queued_at_unix_ms && str_lt(a.job_id.as_str(), b.job_id.as_str())),
    }
}

fn is_listed(j: &StoredJob, which: JobListing) -> (r: bool)
    ensures
        r == listed(j@, which),
{
    match which {
        JobListing::Queued => j.state == JobState::Queued,
        JobListing::Schedulable => j.state == JobState::Queued || j.state == JobState::Paused,
        JobListing::InRun => j.state == JobState::Staging || j.state == JobState::Running,
    }
}

/// `v` lists exactly the `which` Jobs of `jobs`, each once, in order.
pub open spec fn is_listing(jobs: JobMap, which: JobListing, v: Seq<JobView>) -> bool {
    &&& forall|i: int, j: int| 0 <= i < j < v.len() ==> listing_lt(which, #[trigger] v[i], #[trigger] v[j])
    &&& forall|i: int|
        0 <= i < v.len() ==> jobs.contains_key((#[trigger] v[i]).job_id) && jobs[v[i].job_id] == v[i]
            && listed(v[i], which)
    &&& forall|k: Seq<char>|
        #[trigger] jobs.contains_key(k) && listed(jobs[k], which) ==> exists|i: int|
            0 <= i < v.len() && v[i] == jobs[k]
}

/// Every listed Job is readable.
pub open spec fn listing_readable(jobs: JobMap, which: JobListing) -> bool {
    forall|k: Seq<char>| #[trigger] jobs.contains_key(k) && listed(jobs[k], which) ==> shape_ok(jobs[k])
}

pub open spec fn views(v: Seq<StoredJob>) -> Seq<JobView> {
    Seq::new(v.len(), |i: int| v[i]@)
}

pub open spec fn sorted_listing(which: JobListing, v: Seq<JobView>) -> bool {
    forall|i: int, j: int| 0 <= i < j < v.len() ==> listing_lt(which, #[trigger] v[i], #[trigger] v[j])
}

proof fn lemma_sorted_insert(which: JobListing, v: Seq<JobView>, p: int, x: JobView)
    requires
        sorted_listing(which, v),
        0 <= p <= v.len(),
        forall|i: int| 0 <= i < p ==> !listing_lt(which, x, #[trigger] v[i]),
        p < v.len() ==> listing_lt(which, x, v[p]),
        forall|i: int| 0 <= i < v.len() ==> (#[trigger] v[i]).job_id != x.job_id,
    ensures
        sorted_listing(which, v.insert(p, x)),
{
    let w = v.insert(p, x);
    assert forall|i: int| 0 <= i < p implies listing_lt(which, #[trigger] v[i], x) by {
        lemma_listing_order(which, v[i], x, x);
    }
    assert forall|i: int| p <= i < v.len() implies listing_lt(which, x, #[trigger] v[i]) by {
        if i > p {
            lemma_listing_order(which, x, v[p], v[i]);
        }
    }
    assert forall|i: int, j: int| 0 <= i < j < w.len() implies listing_lt(which, #[trigger] w[i], #[trigger] w[j]) by {
        if j < p {
            assert(w[i] == v[i] && w[j] == v[j]);
        } else if j == p {
            assert(w[i] == v[i] && w[j] == x);
        } else if i == p {
            assert(w[i] == x && w[j] == v[j - 1]);
        } else if i < p {
            assert(w[i] == v[i] && w[j] == v[j - 1]);
            lemma_listing_order(which, v[i], x, v[j - 1]);
        } else {
            assert(w[i] == v[i - 1] && w[j] == v[j - 1]);
        }
    }
}

impl CoordinatorJobStore {
    /// The `which` Jobs, each once, in the listing's order. A corrupt listed
    /// Job fails the whole listing.
    pub fn list(&self, which: JobListing) -> (r: Result<Vec<StoredJob>, JobStoreError>)
        requires
            self.wf(),
        ensures
            r is Ok <==> listing_readable(self@.jobs, which),
            match r {
                Ok(v) => is_listing(self@.jobs, which, views(v@)),
                Err(e) => exists|k: Seq<char>|
                    #[trigger] self@.jobs.contains_key(k) && listed(self@.jobs[k], which) && !shape_ok(
                        self@.jobs[k],
                    ) && e@ == shape_error(self@.jobs[k]),
            },
    {
        let ghost jobs = self.jobs@;
        let ghost m = self@.jobs;
        let mut out: Vec<StoredJob> = Vec::new();
        let ghost mut src: Seq<int> = Seq::empty();
        let mut n: usize = 0;
        while n < self.jobs.len()
            invariant
                jobs == self.jobs@,
                m == self@.jobs,
                keys_unique(jobs, job_key()),
                n <= jobs.len(),
                src.len() == out@.len(),
                sorted_listing(which, views(out@)),
                forall|i: int|
                    0 <= i < src.len() ==> 0 <= #[trigger] src[i] < n && out@[i]@ == jobs[src[i]]@ && listed(
                        jobs[src[i]]@,
                        which,
                    ),
                forall|s: int|
                    0 <= s < n && listed(#[trigger] jobs[s]@, which) ==> exists|i: int|
                        0 <= i < src.len() && #[trigger] src[i] == s,
                forall|s: int| 0 <= s < n && listed(jobs[s]@, which) ==> shape_ok(#[trigger] jobs[s]@),
            decreases jobs.len() - n,
        {
            let job = &self.jobs[n];
            if is_listed(job, which) {
                if !job_shape_ok(job) {
                    proof {
                        lemma_table_at(jobs, job_key(), job_val(), n as int);
                    }
                    return Err(shape_error_exec(job));
                }
                let mut p: usize = 0;
                while p < out.len() && !listing_before(which, job, &out[p])
                    invariant
                        p <= out@.len(),
                        forall|i: int| 0 <= i < p ==> !listing_lt(which, job@, #[trigger] out@[i]@),
                    decreases out@.len() - p,
                {
                    p = p + 1;
                }
                let ghost before = views(out@);
                proof {
                    assert forall|i: int| 0 <= i < before.len() implies (#[trigger] before[i]).job_id != job@.job_id by {
                        assert(before[i] == out@[i]@);
                        assert(job_key()(jobs[src[i]]) != job_key()(jobs[n as int]));
                    }
                    assert forall|i: int| 0 <= i < p implies !listing_lt(which, job@, #[trigger] before[i]) by {
                        assert(before[i] == out@[i]@);
                    }
                    if p < out@.len() {
                        assert(before[p as int] == out@[p as int]@);
                    }
                    lemma_sorted_insert(which, before, p as int, job@);
                }
                let ghost old_src = src;
                let ghost old_out = out@;
                out.insert(p, job.copied());
                proof {
                    src = old_src.insert(p as int, n as int);
                    assert(views(out@) =~= before.insert(p as int, job@));
                    assert forall|i: int| 0 <= i < src.len() implies 0 <= #[trigger] src[i] < n + 1 && out@[i]@
                        == jobs[src[i]]@ && listed(jobs[src[i]]@, which) by {
                        if i < p {
                            assert(src[i] == old_src[i] && out@[i] == old_out[i]);
                        } else if i > p {
                            assert(src[i] == old_src[i - 1] && out@[i] == old_out[i - 1]);
                        }
                    }
                    assert forall|s: int| 0 <= s < n + 1 && listed(#[trigger] jobs[s]@, which) implies exists|i: int|
                        0 <= i < src.len() && #[trigger] src[i] == s by {
                        if s == n {
                            assert(src[p as int] == s);
                        } else {
                            let i = choose|i: int| 0 <= i < old_src.len() && #[trigger] old_src[i] == s;
                            if i < p {
                                assert(src[i] == s);
                            } else {
                                assert(src[i + 1] == s);
                            }
                        }
                    }
                }
            }
            n = n + 1;
        }
        proof {
            let vs = views(out@);
            assert forall|i: int| 0 <= i < vs.len() implies m.contains_key((#[trigger] vs[i]).job_id) && m[vs[i].job_id] == vs[i]
                && listed(vs[i], which) by {
                assert(vs[i] == out@[i]@);
                lemma_table_at(jobs, job_key(), job_val(), src[i]);
            }
            assert forall|k: Seq<char>| #[trigger] m.contains_key(k) && listed(m[k], which) implies exists|i: int|
                0 <= i < vs.len() && vs[i] == m[k] by {
                let s = choose|s: int| 0 <= s < jobs.len() && job_key()(#[trigger] jobs[s]) == k;
                lemma_table_at(jobs, job_key(), job_val(), s);
                assert(listed(jobs[s]@, which));
                let i = choose|i: int| 0 <= i < src.len() && #[trigger] src[i] == s;
                assert(vs[i] == out@[i]@);
            }
            assert forall|k: Seq<char>| #[trigger] m.contains_key(k) && listed(m[k], which) implies shape_ok(m[k]) by {
                let s = choose|s: int| 0 <= s < jobs.len() && job_key()(#[trigger] jobs[s]) == k;
                lemma_table_at(jobs, job_key(), job_val(), s);
                assert(listed(jobs[s]@, which));
            }
        }
        Ok(out)
    }

    /// The durable queue in deterministic FIFO order, the Job id breaking ties.
    pub fn list_queued(&self) -> (r: Result<Vec<StoredJob>, JobStoreError>)
        requires
            self.wf(),
        ensures
            r is Ok <==> listing_readable(self@.jobs, JobListing::Queued),
            r matches Ok(v) ==> is_listing(self@.jobs, JobListing::Queued, views(v@)),
    {
        self.list(JobListing::Queued)
    }

    /// The Jobs that can be placed: QUEUED and preempted PAUSED, in
    /// `(queued_at, job_id)` order.
    pub fn list_schedulable(&self) -> (r: Result<Vec<StoredJob>, JobStoreError>)
        requires
            self.wf(),
        ensures
            r is Ok <==> listing_readable(self@.jobs, JobListing::Schedulable),
            r matches Ok(v) ==> is_listing(self@.jobs, JobListing::Schedulable, views(v@)),
    {
        self.list(JobListing::Schedulable)
    }

    /// The Jobs in a run state, by Job id: what failover scans.
    pub fn list_in_run_states(&self) -> (r: Result<Vec<StoredJob>, JobStoreError>)
        requires
            self.wf(),
        ensures
            r is Ok <==> listing_readable(self@.jobs, JobListing::InRun),
            r matches Ok(v) ==> is_listing(self@.jobs, JobListing::InRun, views(v@)),
    {
        self.list(JobListing::InRun)
    }
}

/// `256^n`.
pub open spec fn pow256(n: nat) -> nat
    decreases n,
{
    if n == 0 {
        1
    } else {
        256 * pow256((n - 1) as nat)
    }
}

/// The number that big-endian bytes write.
pub open spec fn be_value(b: Seq<u8>) -> nat
    decreases b.len(),
{
    if b.len() == 0 {
        0
    } else {
        be_value(b.drop_last()) * 256 + (b.last() as nat)
    }
}

/// The `n` big-endian bytes of `v` (the low `n` bytes when `v` is larger).
pub open spec fn be_bytes(v: nat, n: nat) -> Seq<u8>
    decreases n,
{
    if n == 0 {
        Seq::empty()
    } else {
        be_bytes(v / 256, (n - 1) as nat).push((v % 256) as u8)
    }
}

proof fn lemma_pow256_mono(a: nat, b: nat)
    requires
        a <= b,
    ensures
        pow256(a) <= pow256(b),
    decreases b,
{
    if a < b {
        lemma_pow256_mono(a, (b - 1) as nat);
    }
}

pub proof fn lemma_pow256_8()
    ensures
        pow256(8) == 0x1_0000_0000_0000_0000,
{
    reveal_with_fuel(pow256, 9);
}

proof fn lemma_be_value_bound(b: Seq<u8>)
    ensures
        be_value(b) < pow256(b.len()),
    decreases b.len(),
{
    if b.len() > 0 {
        let p = pow256((b.len() - 1) as nat);
        let x = be_value(b.drop_last());
        lemma_be_value_bound(b.drop_last());
        let l = b.last();
        assert(x * 256 + l < p * 256) by (nonlinear_arith)
            requires
                x < p,
                l < 256,
        ;
    }
}

/// Writing `v` in `n` big-endian bytes and reading them back gives `v`
/// whenever `v` fits.
pub proof fn lemma_be_round_trip(v: nat, n: nat)
    requires
        v < pow256(n),
    ensures
        be_bytes(v, n).len() == n,
        be_value(be_bytes(v, n)) == v,
    decreases n,
{
    if n > 0 {
        let p = pow256((n - 1) as nat);
        assert(v / 256 < p) by (nonlinear_arith)
            requires
                v < 256 * p,
        ;
        lemma_be_round_trip(v / 256, (n - 1) as nat);
        let b = be_bytes(v, n);
        assert(b.drop_last() =~= be_bytes(v / 256, (n - 1) as nat));
        assert((v / 256) * 256 + v % 256 == v) by (nonlinear_arith);
    }
}

/// A stored fixed-width integer: eight big-endian bytes, so that the full
/// `u64` range survives a store whose integers are signed.
pub fn encode_u64(value: u64) -> (r: Vec<u8>)
    ensures
        r@ == be_bytes(value as nat, 8),
{
    let mut out: Vec<u8> = Vec::new();
    push_be(&mut out, value, 8);
    assert(out@ =~= be_bytes(value as nat, 8));
    out
}

pub(crate) fn push_be(out: &mut Vec<u8>, v: u64, n: u64)
    requires
        n <= 8,
    ensures
        final(out)@ == old(out)@ + be_bytes(v as nat, n as nat),
    decreases n,
{
    if n > 0 {
        push_be(out, v / 256, n - 1);
        out.push((v % 256) as u8);
        proof {
            assert(be_bytes(v as nat, n as nat) == be_bytes((v / 256) as nat, (n - 1) as nat).push(
                (v % 256) as u8,
            ));
            assert(final(out)@ =~= old(out)@ + be_bytes(v as nat, n as nat));
        }
    } else {
        assert(old(out)@ + be_bytes(v as nat, 0) =~= old(out)@);
    }
}

/// Reads a stored fixed-width integer; anything but exactly eight bytes is
/// corruption (a zero-length or truncated value is never read as zero).
pub fn decode_u64(bytes: &[u8], field: &str) -> (r: Result<u64, JobStoreError>)
    ensures
        match r {
            Ok(v) => bytes@.len() == 8 && v == be_value(bytes@),
            Err(e) => bytes@.len() != 8 && e is CorruptData,
        },
{
    if bytes.len() != 8 {
        let mut e = String::from_str(field);
        push_str(&mut e, " must contain exactly 8 bytes");
        return Err(JobStoreError::CorruptData(e));
    }
    let mut acc: u64 = 0;
    let mut i: usize = 0;
    while i < 8
        invariant
            bytes@.len() == 8,
            i <= 8,
            acc == be_value(bytes@.take(i as int)),
        decreases 8 - i,
    {
        proof {
            let next = bytes@.take(i + 1);
            assert(next.drop_last() =~= bytes@.take(i as int));
            lemma_be_value_bound(next);
            lemma_pow256_mono((i + 1) as nat, 8);
            lemma_pow256_8();
        }
        acc = acc * 256 + bytes[i] as u64;
        i = i + 1;
    }
    assert(bytes@.take(8) =~= bytes@);
    Ok(acc)
}

/// `u64` values survive the stored encoding unchanged, `u64::MAX` included.
pub proof fn law_u64_encoding_round_trips(value: u64)
    ensures
        be_bytes(value as nat, 8).len() == 8,
        be_value(be_bytes(value as nat, 8)) == value,
{
    lemma_pow256_8();
    lemma_be_round_trip(value as nat, 8);
}

/// One stored Job row as the durable store holds it: text, raw bytes, and
/// absent columns.
#[derive(Debug, Clone, PartialEq, Eq)]
pub struct RawJobRow {
    pub job_id: String,
    pub submitter_device_id: String,
    pub manifest_hash: Vec<u8>,
    pub state: String,
    pub submitted_at_unix_ms: Vec<u8>,
    pub planning_at_unix_ms: Option<Vec<u8>>,
    pub queued_at_unix_ms: Option<Vec<u8>>,
    pub staging_at_unix_ms: Option<Vec<u8>>,
    pub deadline_unix_ms: Option<Vec<u8>>,
    pub max_queue_duration_ms: Option<Vec<u8>>,
    pub plan_id: Option<String>,
    pub queue_failure_kind: Option<String>,
    pub queue_failure_detail: Option<String>,
    pub failed_at_unix_ms: Option<Vec<u8>>,
    pub revision: Vec<u8>,
    pub running_at_unix_ms: Option<Vec<u8>>,
    pub run_terminal: Option<String>,
    pub worker_reported_finished_at_unix_ms: Option<Vec<u8>>,
    pub requeue_count: Option<Vec<u8>>,
    pub resume_checkpoint: Option<Vec<u8>>,
}

/// Eight bytes read as a number.
pub open spec fn dec_u64(b: Seq<u8>) -> Option<u64> {
    if b.len() == 8 {
        Some(be_value(b) as u64)
    } else {
        None
    }
}

/// An optional column: absent stays absent, present must decode.
pub open spec fn dec_opt(o: Option<Vec<u8>>) -> Option<Option<u64>> {
    match o {
        None => Some(None),
        Some(b) => match dec_u64(b@) {
            Some(v) => Some(Some(v)),
            None => None,
        },
    }
}

/// The Job a stored row reads as, or `None` when the row is corrupt: an
/// unknown state or trigger, an invalid queue failure (or a detail without a
/// kind), a value of the wrong width, or fields that do not match the state
/// (see `shape_ok`). An absent requeue count is zero.
pub open spec fn decode_row(r: RawJobRow) -> Option<JobView> {
    let state = parsed_state(r.state@);
    let terminal: Option<Option<RunTerminal>> = match r.run_terminal {
        None => Some(None),
        Some(t) => match parsed_terminal(t@) {
            Some(x) => Some(Some(x)),
            None => None,
        },
    };
    let failure: Option<Option<QueueFailureView>> = match r.queue_failure_kind {
        Some(k) => match parsed_failure(k@, opt_text(r.queue_failure_detail)) {
            Some(f) => Some(Some(f)),
            None => None,
        },
        None => if r.queue_failure_detail is None {
            Some(None)
        } else {
            None
        },
    };
    let requeue: Option<u64> = match r.requeue_count {
        None => Some(0u64),
        Some(b) => dec_u64(b@),
    };
    let submitted = dec_u64(r.submitted_at_unix_ms@);
    let revision = dec_u64(r.revision@);
    let planning = dec_opt(r.planning_at_unix_ms);
    let queued = dec_opt(r.queued_at_unix_ms);
    let staging = dec_opt(r.staging_at_unix_ms);
    let deadline = dec_opt(r.deadline_unix_ms);
    let max_queue = dec_opt(r.max_queue_duration_ms);
    let failed = dec_opt(r.failed_at_unix_ms);
    let running = dec_opt(r.running_at_unix_ms);
    let worker = dec_opt(r.worker_reported_finished_at_unix_ms);
    if state is Some && terminal is Some && failure is Some && requeue is Some && r.manifest_hash@.len()
        == 32 && submitted is Some && revision is Some && planning is Some && queued is Some
        && staging is Some && deadline is Some && max_queue is Some && failed is Some && running is Some
        && worker is Some {
        let j = JobView {
            job_id: r.job_id@,
            submitter_device_id: r.submitter_device_id@,
            manifest_hash: r.manifest_hash@,
            state: state->0,
            submitted_at_unix_ms: submitted->0,
            planning_at_unix_ms: planning->0,
            queued_at_unix_ms: queued->0,
            staging_at_unix_ms: staging->0,
            deadline_unix_ms: deadline->0,
            max_queue_duration_ms: max_queue->0,
            plan_id: opt_text(r.plan_id),
            queue_failure: failure->0,
            failed_at_unix_ms: failed->0,
            running_at_unix_ms: running->0,
            run_terminal: terminal->0,
            worker_reported_finished_at_unix_ms: worker->0,
            requeue_count: requeue->0,
            resume_checkpoint: opt_bytes(r.resume_checkpoint),
            revision: revision->0,
        };
        if shape_ok(j) {
            Some(j)
        } else {
            None
        }
    } else {
        None
    }
}

fn decode_opt(o: &Option<Vec<u8>>, field: &str) -> (r: Result<Option<u64>, JobStoreError>)
    ensures
        match dec_opt(*o) {
            Some(v) => r == Ok::<Option<u64>, JobStoreError>(v),
            None => r matches Err(e) && e is CorruptData,
        },
{
    match o {
        None => Ok(None),
        Some(b) => {
            let v = decode_u64(b.as_slice(), field)?;
            Ok(Some(v))
        },
    }
}

/// Reads a stored 32-byte hash.
pub fn decode_hash(bytes: Vec<u8>) -> (r: Result<[u8; 32], JobStoreError>)
    ensures
        match r {
            Ok(h) => bytes@.len() == 32 && h@ == bytes@,
            Err(e) => bytes@.len() != 32 && e is CorruptData,
        },
{
    if bytes.len() != 32 {
        return Err(JobStoreError::CorruptData(String::from_str("manifest_hash must contain exactly 32 bytes")));
    }
    let mut h = [0u8; 32];
    let mut i: usize = 0;
    while i < 32
        invariant
            bytes@.len() == 32,
            h@.len() == 32,
            i <= 32,
            forall|k: int| 0 <= k < i ==> h@[k] == bytes@[k],
        decreases 32 - i,
    {
        h[i] = bytes[i];
        i = i + 1;
    }
    assert(h@ =~= bytes@);
    Ok(h)
}

fn terminal_text(t: &Option<String>) -> (r: Result<Option<RunTerminal>, JobStoreError>)
    ensures
        match t {
            None => r == Ok::<Option<RunTerminal>, JobStoreError>(None),
            Some(s) => match parsed_terminal(s@) {
                Some(x) => r == Ok::<Option<RunTerminal>, JobStoreError>(Some(x)),
                None => r matches Err(e) && e is CorruptData,
            },
        },
{
    match t {
        None => Ok(None),
        Some(s) => {
            let x = RunTerminal::parse(s.as_str())?;
            Ok(Some(x))
        },
    }
}

impl RawJobRow {
    /// Reads the row as a Job, failing closed on any corruption (see
    /// `decode_row`).
    pub fn into_stored(self) -> (r: Result<StoredJob, JobStoreError>)
        ensures
            match decode_row(self) {
                Some(j) => r matches Ok(x) && x@ == j,
                None => r matches Err(e) && e is CorruptData,
            },
    {
        let ghost raw = self;
        let state = parse_job_state(self.state.as_str())?;
        let run_terminal = terminal_text(&self.run_terminal)?;
        let queue_failure = match self.queue_failure_kind {
            Some(kind) => Some(QueueFailure::parse(kind.as_str(), self.queue_failure_detail)?),
            None => {
                if self.queue_failure_detail.is_some() {
                    return Err(JobStoreError::CorruptData(String::from_str("queue failure detail exists without a kind")));
                }
                None
            },
        };
        let requeue_count = match &self.requeue_count {
            Some(b) => decode_u64(b.as_slice(), "requeue_count")?,
            None => 0,
        };
        let manifest_hash = decode_hash(self.manifest_hash)?;
        let submitted_at_unix_ms = decode_u64(self.submitted_at_unix_ms.as_slice(), "submitted_at_unix_ms")?;
        let revision = decode_u64(self.revision.as_slice(), "revision")?;
        let planning_at_unix_ms = decode_opt(&self.planning_at_unix_ms, "planning_at_unix_ms")?;
        let queued_at_unix_ms = decode_opt(&self.queued_at_unix_ms, "queued_at_unix_ms")?;
        let staging_at_unix_ms = decode_opt(&self.staging_at_unix_ms, "staging_at_unix_ms")?;
        let deadline_unix_ms = decode_opt(&self.deadline_unix_ms, "deadline_unix_ms")?;
        let max_queue_duration_ms = decode_opt(&self.max_queue_duration_ms, "max_queue_duration_ms")?;
        let failed_at_unix_ms = decode_opt(&self.failed_at_unix_ms, "failed_at_unix_ms")?;
        let running_at_unix_ms = decode_opt(&self.running_at_unix_ms, "running_at_unix_ms")?;
        let worker_reported_finished_at_unix_ms = decode_opt(
            &self.worker_reported_finished_at_unix_ms,
            "worker_reported_finished_at_unix_ms",
        )?;
        let job = StoredJob {
            job_id: self.job_id,
            submitter_device_id: self.submitter_device_id,
            manifest_hash,
            state,
            submitted_at_unix_ms,
            planning_at_unix_ms,
            queued_at_unix_ms,
            staging_at_unix_ms,
            deadline_unix_ms,
            max_queue_duration_ms,
            plan_id: self.plan_id,
            queue_failure,
            failed_at_unix_ms,
            running_at_unix_ms,
            run_terminal,
            worker_reported_finished_at_unix_ms,
            requeue_count,
            resume_checkpoint: self.resume_checkpoint,
            revision,
        };
        proof {
            assert(decode_row(raw) is Some ==> decode_row(raw)->0 =~= job@);
        }
        if !job_shape_ok(&job) {
            let mut m = String::from_str(job.state.as_str());
            push_str(&mut m, " row shape does not match its state");
            return Err(JobStoreError::CorruptData(m));
        }
        Ok(job)
    }
}

/// The row a Job is written as: every integer in eight big-endian bytes, the
/// state, trigger and failure code by name, a requeue count of zero as an
/// absent column (the shape of rows from before that column).
pub open spec fn encodes(j: JobView, r: RawJobRow) -> bool {
    &&& r.job_id@ == j.job_id
    &&& r.submitter_device_id@ == j.submitter_device_id
    &&& r.manifest_hash@ == j.manifest_hash
    &&& r.state@ == state_name(j.state)
    &&& r.submitted_at_unix_ms@ == be_bytes(j.submitted_at_unix_ms as nat, 8)
    &&& enc_opt(j.planning_at_unix_ms, r.planning_at_unix_ms)
    &&& enc_opt(j.queued_at_unix_ms, r.queued_at_unix_ms)
    &&& enc_opt(j.staging_at_unix_ms, r.staging_at_unix_ms)
    &&& enc_opt(j.deadline_unix_ms, r.deadline_unix_ms)
    &&& enc_opt(j.max_queue_duration_ms, r.max_queue_duration_ms)
    &&& opt_text(r.plan_id) == j.plan_id
    &&& match j.queue_failure {
        None => r.queue_failure_kind is None && r.queue_failure_detail is None,
        Some(f) => r.queue_failure_kind matches Some(k) && k@ == failure_code(f) && opt_text(
            r.queue_failure_detail,
        ) == match f {
            QueueFailureView::PermanentlyInfeasible(reason) => Some(reason),
            _ => None::<Seq<char>>,
        },
    }
    &&& enc_opt(j.failed_at_unix_ms, r.failed_at_unix_ms)
    &&& r.revision@ == be_bytes(j.revision as nat, 8)
    &&& enc_opt(j.running_at_unix_ms, r.running_at_unix_ms)
    &&& match j.run_terminal {
        None => r.run_terminal is None,
        Some(t) => r.run_terminal matches Some(s) && s@ == trigger_name(t),
    }
    &&& enc_opt(j.worker_reported_finished_at_unix_ms, r.worker_reported_finished_at_unix_ms)
    &&& if j.requeue_count == 0 {
        r.requeue_count is None
    } else {
        r.requeue_count matches Some(b) && b@ == be_bytes(j.requeue_count as nat, 8)
    }
    &&& opt_bytes(r.resume_checkpoint) == j.resume_checkpoint
}

pub open spec fn enc_opt(v: Option<u64>, o: Option<Vec<u8>>) -> bool {
    match v {
        None => o is None,
        Some(x) => o matches Some(b) && b@ == be_bytes(x as nat, 8),
    }
}

fn encode_opt(v: Option<u64>) -> (r: Option<Vec<u8>>)
    ensures
        enc_opt(v, r),
{
    match v {
        None => None,
        Some(x) => Some(encode_u64(x)),
    }
}

fn hash_bytes(h: &[u8; 32]) -> (r: Vec<u8>)
    ensures
        r@ == h@,
{
    let mut r: Vec<u8> = Vec::new();
    let mut i: usize = 0;
    while i < 32
        invariant
            h@.len() == 32,
            i <= 32,
            r@ == h@.take(i as int),
        decreases 32 - i,
    {
        r.push(h[i]);
        proof {
            assert(h@.take(i + 1) =~= h@.take(i as int).push(h@[i as int]));
        }
        i = i + 1;
    }
    assert(h@.take(32) =~= h@);
    r
}

impl StoredJob {
    /// The row this Job is written as (see `encodes`).
    pub fn to_row(&self) -> (r: RawJobRow)
        ensures
            encodes(self@, r),
    {
        let (kind, detail) = match &self.queue_failure {
            Some(f) => (
                Some(String::from_str(f.code())),
                match f.detail() {
                    Some(d) => Some(String::from_str(d)),
                    None => None,
                },
            ),
            None => (None, None),
        };
        RawJobRow {
            job_id: copy_string(&self.job_id),
            submitter_device_id: copy_string(&self.submitter_device_id),
            manifest_hash: hash_bytes(&self.manifest_hash),
            state: String::from_str(self.state.as_str()),
            submitted_at_unix_ms: encode_u64(self.submitted_at_unix_ms),
            planning_at_unix_ms: encode_opt(self.planning_at_unix_ms),
            queued_at_unix_ms: encode_opt(self.queued_at_unix_ms),
            staging_at_unix_ms: encode_opt(self.staging_at_unix_ms),
            deadline_unix_ms: encode_opt(self.deadline_unix_ms),
            max_queue_duration_ms: encode_opt(self.max_queue_duration_ms),
            plan_id: match &self.plan_id {
                Some(p) => Some(copy_string(p)),
                None => None,
            },
            queue_failure_kind: kind,
            queue_failure_detail: detail,
            failed_at_unix_ms: encode_opt(self.failed_at_unix_ms),
            revision: encode_u64(self.revision),
            running_at_unix_ms: encode_opt(self.running_at_unix_ms),
            run_terminal: match self.run_terminal {
                Some(t) => Some(String::from_str(t.trigger())),
                None => None,
            },
            worker_reported_finished_at_unix_ms: encode_opt(self.worker_reported_finished_at_unix_ms),
            requeue_count: if self.requeue_count > 0 {
                Some(encode_u64(self.requeue_count))
            } else {
                None
            },
            resume_checkpoint: match &self.resume_checkpoint {
                Some(b) => Some(copy_bytes(b)),
                None => None,
            },
        }
    }
}

proof fn lemma_state_names_read_back(s: JobState)
    requires
        is_stored_state(s),
    ensures
        parsed_state(state_name(s)) == Some(s),
{
    reveal_strlit("SUBMITTED");
    assert("SUBMITTED"@.len() == 9);
    assert("SUBMITTED"@[0] == 'S');
    reveal_strlit("PLANNING");
    assert("PLANNING"@.len() == 8);
    assert("PLANNING"@[0] == 'P');
    reveal_strlit("QUEUED");
    assert("QUEUED"@.len() == 6);
    assert("QUEUED"@[0] == 'Q');
    reveal_strlit("STAGING");
    assert("STAGING"@.len() == 7);
    assert("STAGING"@[0] == 'S');
    reveal_strlit("RUNNING");
    assert("RUNNING"@.len() == 7);
    assert("RUNNING"@[0] == 'R');
    reveal_strlit("PAUSED");
    assert("PAUSED"@.len() == 6);
    assert("PAUSED"@[0] == 'P');
    reveal_strlit("COMPLETED");
    assert("COMPLETED"@.len() == 9);
    assert("COMPLETED"@[0] == 'C');
    reveal_strlit("FAILED");
    assert("FAILED"@.len() == 6);
    assert("FAILED"@[0] == 'F');
}

proof fn lemma_trigger_names_read_back(t: RunTerminal)
    ensures
        parsed_terminal(trigger_name(t)) == Some(t),
{
    reveal_strlit("ATTEMPT_COMPLETED");
    assert("ATTEMPT_COMPLETED"@.len() == 17);
    assert("ATTEMPT_COMPLETED"@[0] == 'A');
    reveal_strlit("STAGING_FAILED");
    assert("STAGING_FAILED"@.len() == 14);
    assert("STAGING_FAILED"@[0] == 'S');
    reveal_strlit("UNRECOVERABLE_ERROR");
    assert("UNRECOVERABLE_ERROR"@.len() == 19);
    assert("UNRECOVERABLE_ERROR"@[0] == 'U');
    reveal_strlit("NO_COMMITTED_CHECKPOINT");
    assert("NO_COMMITTED_CHECKPOINT"@.len() == 23);
    assert("NO_COMMITTED_CHECKPOINT"@[0] == 'N');
}

proof fn lemma_failure_codes_read_back(f: QueueFailureView)
    requires
        failure_ok(f),
    ensures
        parsed_failure(
            failure_code(f),
            match f {
                QueueFailureView::PermanentlyInfeasible(reason) => Some(reason),
                _ => None::<Seq<char>>,
            },
        ) == Some(f),
{
    reveal_strlit("DEADLINE_PASSED");
    assert("DEADLINE_PASSED"@.len() == 15);
    assert("DEADLINE_PASSED"@[0] == 'D');
    reveal_strlit("QUEUE_TIMEOUT");
    assert("QUEUE_TIMEOUT"@.len() == 13);
    assert("QUEUE_TIMEOUT"@[0] == 'Q');
    reveal_strlit("PERMANENTLY_INFEASIBLE");
    assert("PERMANENTLY_INFEASIBLE"@.len() == 22);
    assert("PERMANENTLY_INFEASIBLE"@[0] == 'P');
}

proof fn lemma_opt_reads_back(v: Option<u64>, o: Option<Vec<u8>>)
    requires
        enc_opt(v, o),
    ensures
        dec_opt(o) == Some(v),
{
    if let Some(x) = v {
        law_u64_encoding_round_trips(x);
    }
}

/// What is written is read back: a Job whose fields match its state,
/// written as a row, reads as the same Job.
pub proof fn law_row_round_trip(j: JobView, r: RawJobRow)
    requires
        shape_ok(j),
        j.manifest_hash.len() == 32,
        encodes(j, r),
    ensures
        decode_row(r) == Some(j),
{
    assert(is_stored_state(j.state));
    lemma_state_names_read_back(j.state);
    if let Some(t) = j.run_terminal {
        lemma_trigger_names_read_back(t);
    }
    if let Some(f) = j.queue_failure {
        lemma_failure_codes_read_back(f);
    }
    law_u64_encoding_round_trips(j.submitted_at_unix_ms);
    law_u64_encoding_round_trips(j.revision);
    law_u64_encoding_round_trips(j.requeue_count);
    lemma_opt_reads_back(j.planning_at_unix_ms, r.planning_at_unix_ms);
    lemma_opt_reads_back(j.queued_at_unix_ms, r.queued_at_unix_ms);
    lemma_opt_reads_back(j.staging_at_unix_ms, r.staging_at_unix_ms);
    lemma_opt_reads_back(j.deadline_unix_ms, r.deadline_unix_ms);
    lemma_opt_reads_back(j.max_queue_duration_ms, r.max_queue_duration_ms);
    lemma_opt_reads_back(j.failed_at_unix_ms, r.failed_at_unix_ms);
    lemma_opt_reads_back(j.running_at_unix_ms, r.running_at_unix_ms);
    lemma_opt_reads_back(j.worker_reported_finished_at_unix_ms, r.worker_reported_finished_at_unix_ms);
    assert(decode_row(r)->0 =~= j);
}

/// The edges of the normative Job state table that this store's paths use.
pub open spec fn job_edge(from: JobState, to: JobState) -> bool {
    match (from, to) {
        (JobState::Submitted, JobState::Planning)
        | (JobState::Planning, JobState::Queued)
        | (JobState::Queued, JobState::Staging)
        | (JobState::Queued, JobState::Failed)
        | (JobState::Staging, JobState::Running)
        | (JobState::Staging, JobState::Queued)
        | (JobState::Staging, JobState::Failed)
        | (JobState::Running, JobState::Completed)
        | (JobState::Running, JobState::Failed)
        | (JobState::Running, JobState::Interrupted)
        | (JobState::Running, JobState::Paused)
        | (JobState::Paused, JobState::Running)
        | (JobState::Interrupted, JobState::Replanning)
        | (JobState::Interrupted, JobState::Failed)
        | (JobState::Replanning, JobState::Queued) => true,
        _ => false,
    }
}

/// `to` is `from`, or reached from it along at most three table edges.
pub open spec fn table_path(from: JobState, to: JobState) -> bool {
    ||| from == to
    ||| job_edge(from, to)
    ||| exists|m: JobState| job_edge(from, m) && job_edge(m, to)
    ||| exists|a: JobState, b: JobState| job_edge(from, a) && job_edge(a, b) && job_edge(b, to)
}

/// Every Job is readable (its fields match its state).
pub open spec fn all_readable(jobs: JobMap) -> bool {
    forall|k: Seq<char>| #[trigger] jobs.contains_key(k) ==> shape_ok(jobs[k])
}

/// A resume point handed to the store is a real manifest, not empty bytes.
pub open spec fn resume_ok(resume: Option<Seq<u8>>) -> bool {
    resume matches Some(b) ==> b.len() > 0
}

proof fn lemma_on_job_keeps_readable(
    v: JobStoreView,
    job_id: Seq<char>,
    apply: spec_fn(JobView) -> Result<JobView, JobErrorView>,
)
    requires
        all_readable(v.jobs),
        v.jobs.contains_key(job_id) ==> (apply(v.jobs[job_id]) matches Ok(n) ==> shape_ok(n)),
    ensures
        all_readable(on_job(v, job_id, apply).0.jobs),
        on_job(v, job_id, apply).0.keys == v.keys,
        on_job(v, job_id, apply).0.jobs.dom() == v.jobs.dom(),
{
    let w = on_job(v, job_id, apply).0;
    assert forall|k: Seq<char>| #[trigger] w.jobs.contains_key(k) implies shape_ok(w.jobs[k]) by {
        if k != job_id {
            assert(v.jobs.contains_key(k));
        }
    }
    if v.jobs.contains_key(job_id) {
        assert(w.jobs.dom() =~= v.jobs.dom());
    }
}

/// No operation leaves a Job that cannot be read back: every step keeps the
/// fields of every stored Job in agreement with its state, provided the
/// resume points handed in are not empty. A failed operation changes
/// nothing.
pub proof fn law_operations_keep_jobs_readable(
    v: JobStoreView,
    job_id: Seq<char>,
    s: SubmissionView,
    plan_id: Seq<char>,
    f: QueueFailureView,
    resume: Option<Seq<u8>>,
    attempt_id: Seq<char>,
    attempt_final: AttemptState,
    attempt_ran: bool,
    latest_attempt_id: Option<Seq<char>>,
    at: u64,
)
    requires
        all_readable(v.jobs),
        resume_ok(resume),
    ensures
        all_readable(submit_step(v, s, at).0.jobs),
        all_readable(start_planning_step(v, job_id, at).0.jobs),
        all_readable(enqueue_step(v, job_id, plan_id, at).0.jobs),
        all_readable(plan_and_enqueue_step(v, job_id, plan_id, at).0.jobs),
        all_readable(fail_queued_step(v, job_id, f, at).0.jobs),
        all_readable(node_lost_step(v, job_id, resume, at).0.jobs),
        all_readable(preempt_step(v, job_id, resume).0.jobs),
        all_readable(staging_complete_step(v, job_id, attempt_id, latest_attempt_id, at).0.jobs),
        all_readable(
            attempt_end_step(v, job_id, attempt_id, attempt_final, attempt_ran, at, latest_attempt_id).0.jobs,
        ),
        submit_step(v, s, at).1 is Err ==> submit_step(v, s, at).0 == v,
        start_planning_step(v, job_id, at).1 is Err ==> start_planning_step(v, job_id, at).0 == v,
        enqueue_step(v, job_id, plan_id, at).1 is Err ==> enqueue_step(v, job_id, plan_id, at).0 == v,
        plan_and_enqueue_step(v, job_id, plan_id, at).1 is Err ==> plan_and_enqueue_step(v, job_id, plan_id, at).0 == v,
        fail_queued_step(v, job_id, f, at).1 is Err ==> fail_queued_step(v, job_id, f, at).0 == v,
        node_lost_step(v, job_id, resume, at).1 is Err ==> node_lost_step(v, job_id, resume, at).0 == v,
        preempt_step(v, job_id, resume).1 is Err ==> preempt_step(v, job_id, resume).0 == v,
{
    let w = submit_step(v, s, at).0;
    assert forall|k: Seq<char>| #[trigger] w.jobs.contains_key(k) implies shape_ok(w.jobs[k]) by {
        if k != s.job_id {
            assert(v.jobs.contains_key(k));
        }
    }
    lemma_on_job_keeps_readable(v, job_id, |j: JobView| start_planning_apply(j, at));
    if !is_blank(plan_id) {
        lemma_on_job_keeps_readable(v, job_id, |j: JobView| enqueue_apply(j, plan_id, at));
        lemma_on_job_keeps_readable(v, job_id, |j: JobView| plan_and_enqueue_apply(j, plan_id, at));
    }
    if failure_ok(f) {
        lemma_on_job_keeps_readable(v, job_id, |j: JobView| fail_queued_apply(j, f, at));
    }
    lemma_on_job_keeps_readable(v, job_id, |j: JobView| node_lost_apply(j, resume, at));
    lemma_on_job_keeps_readable(v, job_id, |j: JobView| preempt_apply(j, resume));
    let w2 = staging_complete_step(v, job_id, attempt_id, latest_attempt_id, at).0;
    assert forall|k: Seq<char>| #[trigger] w2.jobs.contains_key(k) implies shape_ok(w2.jobs[k]) by {
        if k != job_id {
            assert(v.jobs.contains_key(k));
        }
    }
    let w3 = attempt_end_step(v, job_id, attempt_id, attempt_final, attempt_ran, at, latest_attempt_id).0;
    assert forall|k: Seq<char>| #[trigger] w3.jobs.contains_key(k) implies shape_ok(w3.jobs[k]) by {
        if k != job_id {
            assert(v.jobs.contains_key(k));
        }
    }
}

/// Every state change an operation makes follows the normative table.
pub proof fn law_transitions_follow_the_table(
    v: JobStoreView,
    job_id: Seq<char>,
    plan_id: Seq<char>,
    f: QueueFailureView,
    resume: Option<Seq<u8>>,
    attempt_id: Seq<char>,
    attempt_final: AttemptState,
    attempt_ran: bool,
    latest_attempt_id: Option<Seq<char>>,
    at: u64,
)
    requires
        v.jobs.contains_key(job_id),
    ensures
        start_planning_step(v, job_id, at).1 matches Ok(n) ==> table_path(v.jobs[job_id].state, n.state),
        enqueue_step(v, job_id, plan_id, at).1 matches Ok(n) ==> table_path(v.jobs[job_id].state, n.state),
        plan_and_enqueue_step(v, job_id, plan_id, at).1 matches Ok(n) ==> table_path(v.jobs[job_id].state, n.state),
        fail_queued_step(v, job_id, f, at).1 matches Ok(n) ==> table_path(v.jobs[job_id].state, n.state),
        node_lost_step(v, job_id, resume, at).1 matches Ok(n) ==> table_path(v.jobs[job_id].state, n.state),
        preempt_step(v, job_id, resume).1 matches Ok(n) ==> table_path(v.jobs[job_id].state, n.state),
        staging_complete_step(v, job_id, attempt_id, latest_attempt_id, at).1 is Ok ==> table_path(
            v.jobs[job_id].state,
            staging_complete_step(v, job_id, attempt_id, latest_attempt_id, at).0.jobs[job_id].state,
        ),
        attempt_end_step(v, job_id, attempt_id, attempt_final, attempt_ran, at, latest_attempt_id).1 matches Ok(
            Some(n),
        ) ==> table_path(v.jobs[job_id].state, n.state),
{
    assert(job_edge(JobState::Submitted, JobState::Planning) && job_edge(JobState::Planning, JobState::Queued));
    assert(job_edge(JobState::Running, JobState::Interrupted) && job_edge(JobState::Interrupted, JobState::Failed));
    assert(job_edge(JobState::Interrupted, JobState::Replanning) && job_edge(JobState::Replanning, JobState::Queued));
    assert(job_edge(JobState::Staging, JobState::Running) && job_edge(JobState::Running, JobState::Completed));
    assert(job_edge(JobState::Running, JobState::Failed));
}

/// Retries are answered from what is stored: the same submission again
/// (at any time) replays the first Job with `created == false`; planning,
/// queueing with the same plan, and failing with the same reason, repeated,
/// return the first result; none of the repeats changes the store.
pub proof fn law_retries_replay_the_first_result(
    v: JobStoreView,
    job_id: Seq<char>,
    s: SubmissionView,
    plan_id: Seq<char>,
    f: QueueFailureView,
    at1: u64,
    at2: u64,
)
    requires
        all_readable(v.jobs),
        forall|k: Seq<u8>| #[trigger] v.keys.contains_key(k) ==> v.jobs.contains_key(v.keys[k]),
    ensures
        ({
            let (v1, r1) = submit_step(v, s, at1);
            let (v2, r2) = submit_step(v1, s, at2);
            r1 matches Ok((j, _)) ==> v2 == v1 && r2 == Ok::<(JobView, bool), JobErrorView>((j, false))
        }),
        ({
            let (v1, r1) = start_planning_step(v, job_id, at1);
            let (v2, r2) = start_planning_step(v1, job_id, at2);
            r1 is Ok ==> v2 == v1 && r2 == r1
        }),
        ({
            let (v1, r1) = enqueue_step(v, job_id, plan_id, at1);
            let (v2, r2) = enqueue_step(v1, job_id, plan_id, at2);
            r1 is Ok ==> v2 == v1 && r2 == r1
        }),
        ({
            let (v1, r1) = fail_queued_step(v, job_id, f, at1);
            let (v2, r2) = fail_queued_step(v1, job_id, f, at2);
            r1 is Ok ==> v2 == v1 && r2 == r1
        }),
{
    let (v1, r1) = submit_step(v, s, at1);
    if r1 is Ok {
        if v.keys.contains_key(s.idempotency_key) {
        } else {
            assert(v1.keys[s.idempotency_key] == s.job_id);
            assert(v1.jobs[s.job_id] == new_job(s, at1));
        }
    }
    let (p1, q1) = start_planning_step(v, job_id, at1);
    if q1 is Ok {
        assert(p1.jobs.insert(job_id, p1.jobs[job_id]) =~= p1.jobs);
        assert(p1 =~= JobStoreView { jobs: p1.jobs.insert(job_id, p1.jobs[job_id]), keys: p1.keys, manifests: p1.manifests });
    }
    let (e1, s1) = enqueue_step(v, job_id, plan_id, at1);
    if s1 is Ok {
        assert(e1.jobs.insert(job_id, e1.jobs[job_id]) =~= e1.jobs);
        assert(e1 =~= JobStoreView { jobs: e1.jobs.insert(job_id, e1.jobs[job_id]), keys: e1.keys, manifests: e1.manifests });
    }
    let (f1, t1) = fail_queued_step(v, job_id, f, at1);
    if t1 is Ok {
        assert(f1.jobs.insert(job_id, f1.jobs[job_id]) =~= f1.jobs);
        assert(f1 =~= JobStoreView { jobs: f1.jobs.insert(job_id, f1.jobs[job_id]), keys: f1.keys, manifests: f1.manifests });
    }
}

/// A manifest-bound submission that succeeded replays: the same submission
/// again returns the first Job and binding with `created == false` and
/// changes nothing, and the same key with another manifest body conflicts
/// and changes nothing. A refused submission changes nothing. (A manifest
/// body is never empty: it encodes at least the Job id.)
pub proof fn law_manifest_submission_replays(
    v: JobStoreView,
    s: SubmissionView,
    m: ManifestSubmissionView,
    other_body: Seq<u8>,
    at1: u64,
    at2: u64,
)
    requires
        all_readable(v.jobs),
        forall|k: Seq<u8>| #[trigger] v.keys.contains_key(k) ==> v.jobs.contains_key(v.keys[k]),
        m.body.len() > 0,
    ensures
        ({
            let (v1, r1) = submit_manifest_step(v, s, m, at1);
            &&& (r1 matches Ok((j, b, _)) ==> ({
                let (v2, r2) = submit_manifest_step(v1, s, m, at2);
                v2 == v1 && r2 == Ok::<(JobView, BindingView, bool), JobErrorView>((j, b, false))
            }))
            &&& (r1 is Ok && other_body != m.body ==> ({
                let (v2, r2) = submit_manifest_step(v1, s, ManifestSubmissionView { body: other_body, ..m }, at2);
                v2 == v1 && r2 matches Err(JobErrorView::IdempotencyConflict { .. })
            }))
            &&& (r1 is Err ==> v1 == v)
        }),
{
    let (v1, r1) = submit_manifest_step(v, s, m, at1);
    if r1 is Ok && !v.keys.contains_key(s.idempotency_key) {
        assert(v1.keys[s.idempotency_key] == s.job_id);
        assert(v1.jobs[s.job_id] == new_job(s, at1));
        assert(v1.manifests[s.job_id].decoded == Some(m.identity));
    }
}

/// Planning and queueing in one transaction ends where the two separate
/// steps at the same time would, when it succeeds.
pub proof fn law_plan_and_enqueue_is_both_steps(v: JobStoreView, job_id: Seq<char>, plan_id: Seq<char>, at: u64)
    requires
        v.jobs.contains_key(job_id),
        v.jobs[job_id].state == JobState::Submitted,
        plan_and_enqueue_step(v, job_id, plan_id, at).1 is Ok,
    ensures
        ({
            let (v1, _) = start_planning_step(v, job_id, at);
            enqueue_step(v1, job_id, plan_id, at) == plan_and_enqueue_step(v, job_id, plan_id, at)
        }),
{
    let (v1, r1) = start_planning_step(v, job_id, at);
    let p = r1->Ok_0;
    assert(shape_ok(p));
    assert(v1.jobs.insert(job_id, plan_and_enqueue_step(v, job_id, plan_id, at).1->Ok_0) =~= v.jobs.insert(
        job_id,
        plan_and_enqueue_step(v, job_id, plan_id, at).1->Ok_0,
    ));
}

/// The queue guards are strict: a deadline equal to now, or a wait equal to
/// the limit, is not yet a failure; one millisecond later it is.
pub proof fn law_queue_guards_are_strict(j: JobView, queued_at: u64, at: u64)
    ensures
        j.deadline_unix_ms == Some(at) ==> queue_guard(j, QueueFailureView::DeadlinePassed, at, queued_at) is Some,
        (j.deadline_unix_ms matches Some(d) && at == d + 1) ==> queue_guard(j, QueueFailureView::DeadlinePassed, at, queued_at)
            is None,
        (queued_at <= at && j.max_queue_duration_ms == Some((at - queued_at) as u64)) ==> queue_guard(
            j,
            QueueFailureView::QueueTimeout,
            at,
            queued_at,
        ) is Some,
        (j.max_queue_duration_ms matches Some(l) && queued_at + l + 1 == at) ==> queue_guard(
            j,
            QueueFailureView::QueueTimeout,
            at,
            queued_at,
        ) is None,
        j.max_queue_duration_ms is None ==> queue_guard(j, QueueFailureView::QueueTimeout, at, queued_at) is Some,
{
}

/// The end of a stale attempt (one that is not the Job's latest) never ends
/// the Job and changes nothing; neither does the progress of one.
pub proof fn law_stale_attempts_change_nothing(
    v: JobStoreView,
    job_id: Seq<char>,
    attempt_id: Seq<char>,
    attempt_final: AttemptState,
    attempt_ran: bool,
    latest_attempt_id: Option<Seq<char>>,
    at: u64,
)
    requires
        latest_attempt_id != Some(attempt_id),
        read_job(v.jobs, job_id) matches Ok(Some(_)),
    ensures
        attempt_end_step(v, job_id, attempt_id, attempt_final, attempt_ran, at, latest_attempt_id) == (
            v,
            Ok::<Option<JobView>, JobErrorView>(None),
        ),
        staging_complete_step(v, job_id, attempt_id, latest_attempt_id, at) == (v, Ok::<bool, JobErrorView>(false)),
{
}

/// A Job taken back to the queue by failover or preemption keeps its
/// original queue time and its plan: it is not sent to the back of the queue.
pub proof fn law_requeue_keeps_queue_place(v: JobStoreView, job_id: Seq<char>, resume: Option<Seq<u8>>, at: u64)
    requires
        v.jobs.contains_key(job_id),
    ensures
        node_lost_step(v, job_id, resume, at).1 matches Ok(n) ==> n.queued_at_unix_ms == v.jobs[job_id].queued_at_unix_ms
            && n.plan_id == v.jobs[job_id].plan_id,
        preempt_step(v, job_id, resume).1 matches Ok(n) ==> n.queued_at_unix_ms == v.jobs[job_id].queued_at_unix_ms
            && n.plan_id == v.jobs[job_id].plan_id,
{
}

/// How the end of a Job's latest attempt ends the Job, for a readable Job in
/// a run state: a completed attempt completes it (ATTEMPT_COMPLETED); an
/// attempt that failed after its workload ran fails it as an unrecoverable
/// error, whether the Job was still STAGING or already RUNNING; an attempt
/// that never ran, or was cancelled, fails a STAGING Job as STAGING_FAILED
/// and a RUNNING Job as an unrecoverable error. The Job is stored as
/// returned, with the worker's end time and the next revision.
pub proof fn law_attempt_end_follows_the_table(
    v: JobStoreView,
    job_id: Seq<char>,
    attempt_id: Seq<char>,
    attempt_final: AttemptState,
    attempt_ran: bool,
    finished_at: u64,
)
    requires
        v.jobs.contains_key(job_id),
        shape_ok(v.jobs[job_id]),
        v.jobs[job_id].state == JobState::Staging || v.jobs[job_id].state == JobState::Running,
        v.jobs[job_id].revision < u64::MAX,
        attempt_final == AttemptState::Completed || attempt_final == AttemptState::Failed || attempt_final
            == AttemptState::Cancelled,
    ensures
        ({
            let before = v.jobs[job_id];
            let (after, r) = attempt_end_step(v, job_id, attempt_id, attempt_final, attempt_ran, finished_at, Some(attempt_id));
            &&& r matches Ok(Some(n))
            &&& after.jobs[job_id] == r->Ok_0->0
            &&& r->Ok_0->0.worker_reported_finished_at_unix_ms == Some(finished_at)
            &&& r->Ok_0->0.revision == before.revision + 1
            &&& attempt_final == AttemptState::Completed ==> r->Ok_0->0.state == JobState::Completed
                && r->Ok_0->0.run_terminal == Some(RunTerminal::AttemptCompleted)
            &&& attempt_final == AttemptState::Failed && attempt_ran ==> r->Ok_0->0.state == JobState::Failed
                && r->Ok_0->0.run_terminal == Some(RunTerminal::UnrecoverableError)
            &&& attempt_final != AttemptState::Completed && !(attempt_final == AttemptState::Failed && attempt_ran)
                ==> r->Ok_0->0.state == JobState::Failed && r->Ok_0->0.run_terminal == Some(
                if before.state == JobState::Running {
                    RunTerminal::UnrecoverableError
                } else {
                    RunTerminal::StagingFailed
                },
            )
        }),
{
}

/// The run-state listing that failover scans holds exactly the stored Jobs
/// that are STAGING or RUNNING: none is left out, nothing else is in it.
pub proof fn law_in_run_listing_is_every_staging_or_running_job(jobs: JobMap, listing: Seq<JobView>, k: Seq<char>)
    requires
        is_listing(jobs, JobListing::InRun, listing),
    ensures
        jobs.contains_key(k) && (jobs[k].state == JobState::Staging || jobs[k].state == JobState::Running)
            ==> exists|i: int| 0 <= i < listing.len() && listing[i] == jobs[k],
        forall|i: int|
            0 <= i < listing.len() ==> (#[trigger] listing[i]).state == JobState::Staging || listing[i].state
                == JobState::Running,
{
    if jobs.contains_key(k) && (jobs[k].state == JobState::Staging || jobs[k].state == JobState::Running) {
        assert(listed(jobs[k], JobListing::InRun));
    }
}

/// The queued listing holds exactly the QUEUED Jobs, and the schedulable one
/// the QUEUED and PAUSED Jobs.
pub proof fn law_queue_listings_hold_their_states(jobs: JobMap, listing: Seq<JobView>, which: JobListing, k: Seq<char>)
    requires
        which != JobListing::InRun,
        is_listing(jobs, which, listing),
    ensures
        jobs.contains_key(k) && (jobs[k].state == JobState::Queued || (which == JobListing::Schedulable
            && jobs[k].state == JobState::Paused)) ==> exists|i: int| 0 <= i < listing.len() && listing[i] == jobs[k],
        forall|i: int|
            0 <= i < listing.len() ==> (#[trigger] listing[i]).state == JobState::Queued || (which
                == JobListing::Schedulable && listing[i].state == JobState::Paused),
{
    if jobs.contains_key(k) && (jobs[k].state == JobState::Queued || (which == JobListing::Schedulable
        && jobs[k].state == JobState::Paused)) {
        assert(listed(jobs[k], which));
    }
}

impl JobState {
    /// The variant's name, as `{:?}` writes it.
    pub open spec fn debug_name(self) -> Seq<char> {
        match self {
            JobState::Submitted => "Submitted"@,
            JobState::Planning => "Planning"@,
            JobState::Queued => "Queued"@,
            JobState::Staging => "Staging"@,
            JobState::Running => "Running"@,
            JobState::Paused => "Paused"@,
            JobState::Interrupted => "Interrupted"@,
            JobState::Replanning => "Replanning"@,
            JobState::Reconciling => "Reconciling"@,
            JobState::Completed => "Completed"@,
            JobState::Failed => "Failed"@,
            JobState::Cancelled => "Cancelled"@,
            JobState::Archived => "Archived"@,
        }
    }

    /// See `debug_name`.
    pub fn name(&self) -> (r: &'static str)
        ensures
            r@ == self.debug_name(),
    {
        match self {
            JobState::Submitted => "Submitted",
            JobState::Planning => "Planning",
            JobState::Queued => "Queued",
            JobState::Staging => "Staging",
            JobState::Running => "Running",
            JobState::Paused => "Paused",
            JobState::Interrupted => "Interrupted",
            JobState::Replanning => "Replanning",
            JobState::Reconciling => "Reconciling",
            JobState::Completed => "Completed",
            JobState::Failed => "Failed",
            JobState::Cancelled => "Cancelled",
            JobState::Archived => "Archived",
        }
    }
}

impl ManifestCorruption {
    /// The variant's name, as `{:?}` writes it.
    pub open spec fn debug_name(self) -> Seq<char> {
        match self {
            ManifestCorruption::EmptyBody => "EmptyBody"@,
            ManifestCorruption::UndecodableBody => "UndecodableBody"@,
            ManifestCorruption::HashMismatch => "HashMismatch"@,
            ManifestCorruption::JobIdMismatch => "JobIdMismatch"@,
            ManifestCorruption::SubmitterDeviceIdMismatch => "SubmitterDeviceIdMismatch"@,
            ManifestCorruption::SignerIdMismatch => "SignerIdMismatch"@,
        }
    }

    /// See `debug_name`.
    pub fn name(&self) -> (r: &'static str)
        ensures
            r@ == self.debug_name(),
    {
        match self {
            ManifestCorruption::EmptyBody => "EmptyBody",
            ManifestCorruption::UndecodableBody => "UndecodableBody",
            ManifestCorruption::HashMismatch => "HashMismatch",
            ManifestCorruption::JobIdMismatch => "JobIdMismatch",
            ManifestCorruption::SubmitterDeviceIdMismatch => "SubmitterDeviceIdMismatch",
            ManifestCorruption::SignerIdMismatch => "SignerIdMismatch",
        }
    }
}

/// The text of a Job store error.
pub open spec fn job_error_text(e: JobErrorView) -> Seq<char>
{
    match e {
        JobErrorView::InvalidInput(f) => "invalid job store input: "@ + f,
        JobErrorView::NotFound => "job_id is not present in the durable store"@,
        JobErrorView::IdempotencyConflict { stored_job_id, requested_job_id } => "idempotency key conflict: stored job="@ + stored_job_id + ", requested job="@ + requested_job_id,
        JobErrorView::JobIdConflict { job_id } => "job_id was already submitted with another key: "@ + job_id,
        JobErrorView::InvalidTransition { from, to } => "invalid durable Job transition: "@ + from.debug_name() + " -> "@ + to.debug_name(),
        JobErrorView::PlanConflict { stored_plan_id, requested_plan_id } => "queued Job plan conflict: stored="@ + stored_plan_id + ", requested="@ + requested_plan_id,
        JobErrorView::GuardNotMet(g) => "Job transition guard not met: "@ + g,
        JobErrorView::ManifestIdentityMismatch(f) => "verified Manifest identity does not match accepted "@ + f,
        JobErrorView::ManifestHashMismatch => "supplied manifest_hash does not match the verified Manifest"@,
        JobErrorView::LegacyManifestMissing { job_id } => "job "@ + job_id + " predates durable Manifest bodies and cannot be consumed"@,
        JobErrorView::ManifestCorrupt { job_id, kind } => "durable Manifest for job "@ + job_id + " is corrupt: "@ + kind.debug_name(),
        JobErrorView::ClockRollback { earlier_unix_ms, later_unix_ms } => "clock moved backwards: event="@ + decimal((earlier_unix_ms) as nat) + ", prior="@ + decimal((later_unix_ms) as nat),
        JobErrorView::CorruptData(m) => "job store corruption: "@ + m,
        JobErrorView::Io(m) => "job store I/O error: "@ + m,
        JobErrorView::LockTimeout => "job store lock acquisition timed out"@,
        JobErrorView::InjectedFailure(p) => "injected job store failure: "@ + p,
    }
}

impl JobStoreError {
    /// The error's text.
    pub fn message(&self) -> (r: String)
        ensures
            r@ == job_error_text(self@),
    {
        match self {
            JobStoreError::InvalidInput(f) => {
                let mut r = String::from_str("invalid job store input: ");
                push_str(&mut r, f);
                r
            },
            JobStoreError::NotFound => {
                let mut r = String::from_str("job_id is not present in the durable store");
                r
            },
            JobStoreError::IdempotencyConflict { stored_job_id, requested_job_id } => {
                let mut r = String::from_str("idempotency key conflict: stored job=");
                push_str(&mut r, stored_job_id.as_str());
                push_str(&mut r, ", requested job=");
                push_str(&mut r, requested_job_id.as_str());
                r
            },
            JobStoreError::JobIdConflict { job_id } => {
                let mut r = String::from_str("job_id was already submitted with another key: ");
                push_str(&mut r, job_id.as_str());
                r
            },
            JobStoreError::InvalidTransition { from, to } => {
                let mut r = String::from_str("invalid durable Job transition: ");
                push_str(&mut r, from.name());
                push_str(&mut r, " -> ");
                push_str(&mut r, to.name());
                r
            },
            JobStoreError::PlanConflict { stored_plan_id, requested_plan_id } => {
                let mut r = String::from_str("queued Job plan conflict: stored=");
                push_str(&mut r, stored_plan_id.as_str());
                push_str(&mut r, ", requested=");
                push_str(&mut r, requested_plan_id.as_str());
                r
            },
            JobStoreError::GuardNotMet(g) => {
                let mut r = String::from_str("Job transition guard not met: ");
                push_str(&mut r, g);
                r
            },
            JobStoreError::ManifestIdentityMismatch(f) => {
                let mut r = String::from_str("verified Manifest identity does not match accepted ");
                push_str(&mut r, f);
                r
            },
            JobStoreError::ManifestHashMismatch => {
                let mut r = String::from_str("supplied manifest_hash does not match the verified Manifest");
                r
            },
            JobStoreError::LegacyManifestMissing { job_id } => {
                let mut r = String::from_str("job ");
                push_str(&mut r, job_id.as_str());
                push_str(&mut r, " predates durable Manifest bodies and cannot be consumed");
                r
            },
            JobStoreError::ManifestCorrupt { job_id, kind } => {
                let mut r = String::from_str("durable Manifest for job ");
                push_str(&mut r, job_id.as_str());
                push_str(&mut r, " is corrupt: ");
                push_str(&mut r, kind.name());
                r
            },
            JobStoreError::ClockRollback { earlier_unix_ms, later_unix_ms } => {
                let mut r = String::from_str("clock moved backwards: event=");
                push_decimal(&mut r, *earlier_unix_ms);
                push_str(&mut r, ", prior=");
                push_decimal(&mut r, *later_unix_ms);
                r
            },
            JobStoreError::CorruptData(m) => {
                let mut r = String::from_str("job store corruption: ");
                push_str(&mut r, m.as_str());
                r
            },
            JobStoreError::Io(m) => {
                let mut r = String::from_str("job store I/O error: ");
                push_str(&mut r, m.as_str());
                r
            },
            JobStoreError::LockTimeout => {
                let mut r = String::from_str("job store lock acquisition timed out");
                r
            },
            JobStoreError::InjectedFailure(p) => {
                let mut r = String::from_str("injected job store failure: ");
                push_str(&mut r, p);
                r
            },
        }
    }
}


} // verus!
