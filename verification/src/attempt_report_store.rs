//! Durable inbox for verified terminal attempt reports.
//!
//! A report is bound to its stored attempt (job, only node, signer, fence)
//! and, while the node's reservation still belongs to that attempt, to the
//! reservation too. A late report, after the reservation was released or
//! taken by another run, is bound to the assignment record only and kept as
//! evidence of a past run. Storing a report moves the attempt to the terminal
//! state the report proves, along the normative table, and never synthesises
//! a state nothing observed.
use vstd::prelude::*;

use crate::attempt_state::AttemptState;
use crate::job_store::{be_value, decode_u64, encode_u64, be_bytes};
use crate::table::{keys_unique, lemma_table_absent, lemma_table_at, lemma_table_push, table_map};
use crate::text::{blank, copy_string, is_blank, push_signed_decimal, push_str, signed_decimal, str_eq};

verus! {

/// What a stored report was bound to.
#[derive(Debug, Clone, Copy, PartialEq, Eq, Structural)]
pub enum ReportBindingSource {
    /// The node's current reservation belonged to this attempt when the
    /// report was stored; the reservation was checked too.
    CurrentReservation,
    /// A late report: the reservation was gone or belonged to another run,
    /// so only the attempt's assignment record was checked. Such a report is
    /// only kept; it neither releases a reservation nor settles a result.
    AssignmentRecord,
}

pub open spec fn binding_source_name(s: ReportBindingSource) -> Seq<char> {
    match s {
        ReportBindingSource::CurrentReservation => "current_reservation"@,
        ReportBindingSource::AssignmentRecord => "assignment_record"@,
    }
}

pub open spec fn parsed_binding_source(text: Seq<char>) -> Option<ReportBindingSource> {
    if text == "current_reservation"@ {
        Some(ReportBindingSource::CurrentReservation)
    } else if text == "assignment_record"@ {
        Some(ReportBindingSource::AssignmentRecord)
    } else {
        None
    }
}

impl ReportBindingSource {
    /// The stored name.
    pub fn as_str(self) -> (r: &'static str)
        ensures
            r@ == binding_source_name(self),
    {
        match self {
            ReportBindingSource::CurrentReservation => "current_reservation",
            ReportBindingSource::AssignmentRecord => "assignment_record",
        }
    }

    /// Reads a stored name.
    pub fn parse(text: &str) -> (r: Option<ReportBindingSource>)
        ensures
            r == parsed_binding_source(text@),
    {
        if str_eq(text, "current_reservation") {
            Some(ReportBindingSource::CurrentReservation)
        } else if str_eq(text, "assignment_record") {
            Some(ReportBindingSource::AssignmentRecord)
        } else {
            None
        }
    }
}

/// Stored names read back as what was written.
pub proof fn law_binding_source_names_round_trip(s: ReportBindingSource)
    ensures
        parsed_binding_source(binding_source_name(s)) == Some(s),
{
    reveal_strlit("current_reservation");
    reveal_strlit("assignment_record");
    assert("current_reservation"@.len() != "assignment_record"@.len());
}

/// Which durable fact a report failed to match.
#[derive(Debug, Clone, Copy, PartialEq, Eq, Structural)]
pub enum BindingField {
    JobId,
    AttemptId,
    NodeId,
    SignerId,
    FenceEpoch,
    ReservationJobId,
    ReservationAttemptId,
    ReservationNodeId,
}

/// How a stored report row fails to hold together.
#[derive(Debug, Clone, Copy, PartialEq, Eq, Structural)]
pub enum AttemptReportCorruption {
    EmptyBody,
    UndecodableBody,
    HashEncoding,
    HashMismatch,
    JobIdMismatch,
    AttemptIdMismatch,
    NodeIdMismatch,
    SignerIdMismatch,
    FenceEpochEncoding,
    FenceEpochMismatch,
    InvalidOutcome,
    /// The stored report breaks the field-combination rules that storing
    /// should have enforced.
    ReportRule,
    MissingAttempt,
    /// The binding-source column holds an unknown name.
    BindingSource,
}

/// The outcome values of a report.
#[derive(Debug, Clone, Copy, PartialEq, Eq, Structural)]
pub enum AttemptOutcome {
    Unspecified,
    Completed,
    Failed,
    Interrupted,
    Cancelled,
    StaleCompleted,
    OutputFinalizationFailed,
}

/// Whether the worker observed the process exit.
#[derive(Debug, Clone, Copy, PartialEq, Eq, Structural)]
pub enum ExitObservation {
    Unspecified,
    NotObserved,
    ObservedWithCode,
    ObservedNoCode,
}

pub open spec fn terminal_outcome(outcome: Option<AttemptOutcome>) -> bool {
    outcome matches Some(o) && o != AttemptOutcome::Unspecified
}

/// Whether an outcome value is a known terminal outcome; `None` is a value
/// the protocol does not define.
pub fn is_terminal_outcome(outcome: Option<AttemptOutcome>) -> (r: bool)
    ensures
        r == terminal_outcome(outcome),
{
    match outcome {
        Some(AttemptOutcome::Unspecified) | None => false,
        Some(_) => true,
    }
}

pub open spec fn observed_exit(e: Option<ExitObservation>) -> bool {
    e == Some(ExitObservation::ObservedWithCode) || e == Some(ExitObservation::ObservedNoCode)
}

/// The path along which an attempt left in CREATED by an older store is
/// moved when the store is opened, from its stored report (`None`: the body
/// does not decode): the normative path from CREATED to the terminal state
/// the report proves. A report that proves no state, or a state the table
/// does not reach from CREATED, moves nothing.
pub fn backfill_path(report: Option<&AttemptReportFacts>) -> (r: Option<Vec<AttemptState>>)
    ensures
        report is None ==> r is None,
        report matches Some(x) ==> match terminal_state(x.outcome_kind) {
            None => r is None,
            Some(t) => match r {
                Some(p) => exists|k: int|
                    0 <= k < 4 && candidate_ok(AttemptState::Created, t, observed_exit(x.exit_observation), k) && p@
                        == candidate_path(k, t) && (forall|j: int|
                        0 <= j < k ==> !candidate_ok(AttemptState::Created, t, observed_exit(x.exit_observation), j)),
                None => forall|k: int|
                    0 <= k < 4 ==> !candidate_ok(AttemptState::Created, t, observed_exit(x.exit_observation), k),
            },
        },
{
    let rep = match report {
        None => {
            return None;
        },
        Some(x) => x,
    };
    let target = match terminal_state_for(rep.outcome_kind) {
        None => {
            return None;
        },
        Some(t) => t,
    };
    let observed = match rep.exit_observation {
        Some(ExitObservation::ObservedWithCode) | Some(ExitObservation::ObservedNoCode) => true,
        _ => false,
    };
    normative_path(AttemptState::Created, target, observed)
}

/// The last attempt state a terminal report proves: completion (also a stale
/// one) means the workload ran; a failure (also of output finalization) is a
/// failure; a cancellation is one. An interruption has no state in the
/// attempt table and changes nothing.
pub open spec fn terminal_state(outcome: Option<AttemptOutcome>) -> Option<AttemptState> {
    match outcome {
        Some(AttemptOutcome::Completed) | Some(AttemptOutcome::StaleCompleted) => Some(AttemptState::Completed),
        Some(AttemptOutcome::Failed) | Some(AttemptOutcome::OutputFinalizationFailed) => Some(
            AttemptState::Failed,
        ),
        Some(AttemptOutcome::Cancelled) => Some(AttemptState::Cancelled),
        _ => None,
    }
}

pub fn terminal_state_for(outcome: Option<AttemptOutcome>) -> (r: Option<AttemptState>)
    ensures
        r == terminal_state(outcome),
{
    match outcome {
        Some(AttemptOutcome::Completed) | Some(AttemptOutcome::StaleCompleted) => Some(AttemptState::Completed),
        Some(AttemptOutcome::Failed) | Some(AttemptOutcome::OutputFinalizationFailed) => Some(
            AttemptState::Failed,
        ),
        Some(AttemptOutcome::Cancelled) => Some(AttemptState::Cancelled),
        _ => None,
    }
}

/// The edges of the normative attempt table that terminal reports use: the
/// Grant accepted (`CREATED -> STARTING`), the Grant refused
/// (`CREATED -> CANCELLED`), the workload started, failed to start, or ended.
pub open spec fn attempt_edge(from: AttemptState, to: AttemptState) -> bool {
    match (from, to) {
        (AttemptState::Created, AttemptState::Starting)
        | (AttemptState::Created, AttemptState::Cancelled)
        | (AttemptState::Starting, AttemptState::Running)
        | (AttemptState::Starting, AttemptState::Failed)
        | (AttemptState::Running, AttemptState::Completed)
        | (AttemptState::Running, AttemptState::Failed) => true,
        _ => false,
    }
}

pub fn is_attempt_edge(from: AttemptState, to: AttemptState) -> (r: bool)
    ensures
        r == attempt_edge(from, to),
{
    match (from, to) {
        (AttemptState::Created, AttemptState::Starting)
        | (AttemptState::Created, AttemptState::Cancelled)
        | (AttemptState::Starting, AttemptState::Running)
        | (AttemptState::Starting, AttemptState::Failed)
        | (AttemptState::Running, AttemptState::Completed)
        | (AttemptState::Running, AttemptState::Failed) => true,
        _ => false,
    }
}

/// `path` walks the table from `from`, one edge per step, and ends at `to`.
pub open spec fn walks(from: AttemptState, path: Seq<AttemptState>, to: AttemptState) -> bool
    decreases path.len(),
{
    if path.len() == 0 {
        from == to
    } else {
        attempt_edge(from, path[0]) && walks(path[0], path.drop_first(), to)
    }
}

/// The paths tried, shortest first: straight there, through STARTING,
/// through STARTING and RUNNING, through RUNNING.
pub open spec fn candidate_path(k: int, to: AttemptState) -> Seq<AttemptState> {
    if k == 0 {
        seq![to]
    } else if k == 1 {
        seq![AttemptState::Starting, to]
    } else if k == 2 {
        seq![AttemptState::Starting, AttemptState::Running, to]
    } else {
        seq![AttemptState::Running, to]
    }
}

/// A failure whose exit nobody observed is never routed through RUNNING:
/// that the workload ran would be invented.
pub open spec fn candidate_allowed(k: int, to: AttemptState, observed: bool) -> bool {
    !(!observed && to == AttemptState::Failed && (k == 2 || k == 3))
}

pub open spec fn candidate_ok(from: AttemptState, to: AttemptState, observed: bool, k: int) -> bool {
    candidate_allowed(k, to, observed) && walks(from, candidate_path(k, to), to)
}

fn walk_ok(from: AttemptState, path: &Vec<AttemptState>, to: AttemptState) -> (r: bool)
    ensures
        r == walks(from, path@, to),
{
    let mut current = from;
    let mut i: usize = 0;
    assert(path@.skip(0) =~= path@);
    while i < path.len()
        invariant
            i <= path@.len(),
            walks(from, path@, to) == walks(current, path@.skip(i as int), to),
        decreases path@.len() - i,
    {
        let step = path[i];
        proof {
            assert(path@.skip(i as int)[0] == step);
            assert(path@.skip(i as int).drop_first() =~= path@.skip(i + 1));
        }
        if !is_attempt_edge(current, step) {
            return false;
        }
        current = step;
        i = i + 1;
    }
    proof {
        assert(path@.skip(i as int).len() == 0);
    }
    current == to
}

fn candidate(k: usize, to: AttemptState) -> (r: Vec<AttemptState>)
    requires
        k < 4,
    ensures
        r@ == candidate_path(k as int, to),
{
    let mut v: Vec<AttemptState> = Vec::new();
    if k == 1 || k == 2 {
        v.push(AttemptState::Starting);
    }
    if k == 2 || k == 3 {
        v.push(AttemptState::Running);
    }
    v.push(to);
    proof {
        assert(v@ =~= candidate_path(k as int, to));
    }
    v
}

/// The first candidate path from `from` to `to` that stays on the table
/// (and does not invent a run), or `None` when none does. The path is only
/// checked; only the final state is stored.
pub fn normative_path(from: AttemptState, to: AttemptState, observed: bool) -> (r: Option<Vec<AttemptState>>)
    ensures
        match r {
            Some(p) => exists|k: int|
                0 <= k < 4 && candidate_ok(from, to, observed, k) && p@ == candidate_path(k, to) && (forall|
                    j: int,
                | 0 <= j < k ==> !candidate_ok(from, to, observed, j)),
            None => forall|k: int| 0 <= k < 4 ==> !candidate_ok(from, to, observed, k),
        },
{
    let mut k: usize = 0;
    while k < 4
        invariant
            k <= 4,
            forall|j: int| 0 <= j < k ==> !candidate_ok(from, to, observed, j),
        decreases 4 - k,
    {
        let skip = !observed && to == AttemptState::Failed && (k == 2 || k == 3);
        if !skip {
            let path = candidate(k, to);
            if walk_ok(from, &path, to) {
                return Some(path);
            }
        }
        k = k + 1;
    }
    None
}

/// No path the store accepts puts RUNNING into a failure that nobody saw
/// exit: a report without an exit observation never claims the run.
pub proof fn law_no_invented_run(from: AttemptState, k: int)
    requires
        0 <= k < 4,
        candidate_ok(from, AttemptState::Failed, false, k),
    ensures
        !candidate_path(k, AttemptState::Failed).contains(AttemptState::Running),
{
    assert(k == 0 || k == 1);
    if k == 0 {
        assert(candidate_path(k, AttemptState::Failed)[0] != AttemptState::Running);
    } else {
        assert(candidate_path(k, AttemptState::Failed)[0] != AttemptState::Running);
        assert(candidate_path(k, AttemptState::Failed)[1] != AttemptState::Running);
    }
}

#[derive(Debug, PartialEq, Eq)]
pub enum AttemptReportStoreError {
    InvalidInput(&'static str),
    InvalidOutcome(i32),
    /// Validly signed, but the field combination rules refuse it.
    ReportRule(String),
    AttemptNotFound { attempt_id: String },
    ReservationNotFound { node_id: String },
    BindingMismatch(BindingField),
    /// The terminal state the report proves cannot be reached along the
    /// normative table; refused rather than invented.
    AttemptStateUnreachable { from: AttemptState, to: AttemptState },
    ReportConflict { attempt_id: String, node_id: String },
    Corrupt { attempt_id: String, node_id: String, kind: AttemptReportCorruption },
    Staging(String),
    Io(String),
    LockTimeout,
}

/// The fields of a verified report that storing reads.
#[derive(Debug, Clone, PartialEq, Eq)]
pub struct AttemptReportFacts {
    pub job_id: String,
    pub attempt_id: String,
    pub node_id: String,
    pub fence_epoch: u64,
    /// The outcome value as sent.
    pub outcome: i32,
    /// The outcome it names, `None` for a value the protocol does not define.
    pub outcome_kind: Option<AttemptOutcome>,
    pub exit_observation: Option<ExitObservation>,
}

/// The stored attempt a report names.
#[derive(Debug, Clone, PartialEq, Eq)]
pub struct StoredAttempt {
    pub attempt_id: String,
    pub job_id: String,
    pub node_ids: Vec<String>,
    pub fence_epoch: u64,
    pub state: AttemptState,
}

/// A node's reservation.
#[derive(Debug, Clone, PartialEq, Eq)]
pub struct StoredNodeReservation {
    pub node_id: String,
    pub attempt_id: String,
    pub job_id: String,
}

/// What is wrong with a report before any durable fact is read: blank
/// identifiers, an outcome that is not a known terminal one, or a broken
/// field-combination rule (given as its message).
pub open spec fn input_error(r: AttemptReportFacts, rule_violation: Option<String>) -> Option<AttemptReportStoreError> {
    if is_blank(r.job_id@) {
        Some(AttemptReportStoreError::InvalidInput("job_id"))
    } else if is_blank(r.attempt_id@) {
        Some(AttemptReportStoreError::InvalidInput("attempt_id"))
    } else if is_blank(r.node_id@) {
        Some(AttemptReportStoreError::InvalidInput("node_id"))
    } else if !terminal_outcome(r.outcome_kind) {
        Some(AttemptReportStoreError::InvalidOutcome(r.outcome))
    } else if rule_violation is Some {
        Some(AttemptReportStoreError::ReportRule(rule_violation->0))
    } else {
        None
    }
}

pub fn validate_report_input(report: &AttemptReportFacts, rule_violation: Option<String>) -> (r: Result<
    (),
    AttemptReportStoreError,
>)
    ensures
        match input_error(*report, rule_violation) {
            None => r is Ok,
            Some(e) => r == Err::<(), AttemptReportStoreError>(e),
        },
{
    if blank(report.job_id.as_str()) {
        return Err(AttemptReportStoreError::InvalidInput("job_id"));
    }
    if blank(report.attempt_id.as_str()) {
        return Err(AttemptReportStoreError::InvalidInput("attempt_id"));
    }
    if blank(report.node_id.as_str()) {
        return Err(AttemptReportStoreError::InvalidInput("node_id"));
    }
    if !is_terminal_outcome(report.outcome_kind) {
        return Err(AttemptReportStoreError::InvalidOutcome(report.outcome));
    }
    match rule_violation {
        Some(m) => Err(AttemptReportStoreError::ReportRule(m)),
        None => Ok(()),
    }
}

/// The attempt ran on exactly this report's node.
pub open spec fn only_node(nodes: Seq<String>, node: Seq<char>) -> bool {
    nodes.len() == 1 && nodes[0]@ == node
}

/// The first durable fact of the attempt that the report does not match:
/// job, attempt, the attempt's only node, the signer (which is that node),
/// and the fence.
pub open spec fn attempt_binding_error(r: AttemptReportFacts, signer_id: Seq<char>, a: StoredAttempt) -> Option<BindingField> {
    if r.job_id@ != a.job_id@ {
        Some(BindingField::JobId)
    } else if r.attempt_id@ != a.attempt_id@ {
        Some(BindingField::AttemptId)
    } else if !only_node(a.node_ids@, r.node_id@) {
        Some(BindingField::NodeId)
    } else if signer_id != r.node_id@ || signer_id != a.node_ids@[0]@ {
        Some(BindingField::SignerId)
    } else if r.fence_epoch != a.fence_epoch {
        Some(BindingField::FenceEpoch)
    } else {
        None
    }
}

fn is_only_node(nodes: &Vec<String>, node: &str) -> (r: bool)
    ensures
        r == only_node(nodes@, node@),
{
    nodes.len() == 1 && str_eq(nodes[0].as_str(), node)
}

pub fn bind_attempt(report: &AttemptReportFacts, signer_id: &str, attempt: &StoredAttempt) -> (r: Result<
    (),
    AttemptReportStoreError,
>)
    ensures
        match attempt_binding_error(*report, signer_id@, *attempt) {
            None => r is Ok,
            Some(f) => r == Err::<(), AttemptReportStoreError>(AttemptReportStoreError::BindingMismatch(f)),
        },
{
    if !str_eq(report.job_id.as_str(), attempt.job_id.as_str()) {
        return Err(AttemptReportStoreError::BindingMismatch(BindingField::JobId));
    }
    if !str_eq(report.attempt_id.as_str(), attempt.attempt_id.as_str()) {
        return Err(AttemptReportStoreError::BindingMismatch(BindingField::AttemptId));
    }
    if !is_only_node(&attempt.node_ids, report.node_id.as_str()) {
        return Err(AttemptReportStoreError::BindingMismatch(BindingField::NodeId));
    }
    if !str_eq(signer_id, report.node_id.as_str()) || !str_eq(signer_id, attempt.node_ids[0].as_str()) {
        return Err(AttemptReportStoreError::BindingMismatch(BindingField::SignerId));
    }
    if report.fence_epoch != attempt.fence_epoch {
        return Err(AttemptReportStoreError::BindingMismatch(BindingField::FenceEpoch));
    }
    Ok(())
}

/// The first field of the current reservation the report does not match.
pub open spec fn reservation_binding_error(r: AttemptReportFacts, res: StoredNodeReservation) -> Option<BindingField> {
    if r.job_id@ != res.job_id@ {
        Some(BindingField::ReservationJobId)
    } else if r.attempt_id@ != res.attempt_id@ {
        Some(BindingField::ReservationAttemptId)
    } else if r.node_id@ != res.node_id@ {
        Some(BindingField::ReservationNodeId)
    } else {
        None
    }
}

pub fn bind_reservation(report: &AttemptReportFacts, reservation: &StoredNodeReservation) -> (r: Result<
    (),
    AttemptReportStoreError,
>)
    ensures
        match reservation_binding_error(*report, *reservation) {
            None => r is Ok,
            Some(f) => r == Err::<(), AttemptReportStoreError>(AttemptReportStoreError::BindingMismatch(f)),
        },
{
    if !str_eq(report.job_id.as_str(), reservation.job_id.as_str()) {
        return Err(AttemptReportStoreError::BindingMismatch(BindingField::ReservationJobId));
    }
    if !str_eq(report.attempt_id.as_str(), reservation.attempt_id.as_str()) {
        return Err(AttemptReportStoreError::BindingMismatch(BindingField::ReservationAttemptId));
    }
    if !str_eq(report.node_id.as_str(), reservation.node_id.as_str()) {
        return Err(AttemptReportStoreError::BindingMismatch(BindingField::ReservationNodeId));
    }
    Ok(())
}

/// A stored report with what it was bound to.
#[derive(Debug, Clone, PartialEq, Eq)]
pub struct StoredAttemptReportBinding {
    pub report_body: Vec<u8>,
    pub report_hash: [u8; 32],
    pub signer_id_at_submission: String,
    pub bound_job_id: String,
    pub bound_attempt_id: String,
    pub bound_node_id: String,
    pub bound_fence_epoch: u64,
    pub bound_via: ReportBindingSource,
}

/// A stored report as values.
pub struct BindingView {
    pub report_body: Seq<u8>,
    pub report_hash: Seq<u8>,
    pub signer_id_at_submission: Seq<char>,
    pub bound_job_id: Seq<char>,
    pub bound_attempt_id: Seq<char>,
    pub bound_node_id: Seq<char>,
    pub bound_fence_epoch: u64,
    pub bound_via: ReportBindingSource,
}

impl View for StoredAttemptReportBinding {
    type V = BindingView;

    open spec fn view(&self) -> BindingView {
        BindingView {
            report_body: self.report_body@,
            report_hash: self.report_hash@,
            signer_id_at_submission: self.signer_id_at_submission@,
            bound_job_id: self.bound_job_id@,
            bound_attempt_id: self.bound_attempt_id@,
            bound_node_id: self.bound_node_id@,
            bound_fence_epoch: self.bound_fence_epoch,
            bound_via: self.bound_via,
        }
    }
}

impl StoredAttemptReportBinding {
    pub fn copied(&self) -> (r: StoredAttemptReportBinding)
        ensures
            r@ == self@,
    {
        StoredAttemptReportBinding {
            report_body: crate::job_store::copy_bytes(&self.report_body),
            report_hash: self.report_hash,
            signer_id_at_submission: copy_string(&self.signer_id_at_submission),
            bound_job_id: copy_string(&self.bound_job_id),
            bound_attempt_id: copy_string(&self.bound_attempt_id),
            bound_node_id: copy_string(&self.bound_node_id),
            bound_fence_epoch: self.bound_fence_epoch,
            bound_via: self.bound_via,
        }
    }
}

/// The result of storing a report.
#[derive(Debug, Clone, PartialEq, Eq)]
pub struct StoreAttemptReportResult {
    pub binding: StoredAttemptReportBinding,
    /// `false`: an exact replay returned the first stored report.
    pub created: bool,
    /// The terminal state the attempt moves to with this report, when it
    /// changes (the attempt store records it in the same commit).
    pub attempt_state: Option<AttemptState>,
}

pub type ReportKey = (Seq<char>, Seq<char>);

pub type ReportMap = Map<ReportKey, BindingView>;

/// What the report proves for the attempt: `Ok(None)` keeps its state,
/// `Ok(Some(s))` moves it to `s` along the table, `Err` when the table has no
/// way there.
pub open spec fn attempt_move(r: AttemptReportFacts, a: StoredAttempt) -> Result<Option<AttemptState>, (AttemptState, AttemptState)> {
    match terminal_state(r.outcome_kind) {
        None => Ok(None),
        Some(t) => if a.state == t {
            Ok(None)
        } else if exists|k: int| 0 <= k < 4 && candidate_ok(a.state, t, observed_exit(r.exit_observation), k) {
            Ok(Some(t))
        } else {
            Err((a.state, t))
        },
    }
}

/// The binding a new report gets.
pub open spec fn new_binding(
    r: AttemptReportFacts,
    signer_id: Seq<char>,
    body: Seq<u8>,
    hash: Seq<u8>,
    via: ReportBindingSource,
) -> BindingView {
    BindingView {
        report_body: body,
        report_hash: hash,
        signer_id_at_submission: signer_id,
        bound_job_id: r.job_id@,
        bound_attempt_id: r.attempt_id@,
        bound_node_id: r.node_id@,
        bound_fence_epoch: r.fence_epoch,
        bound_via: via,
    }
}

/// The outcome of storing a report, as values.
pub enum StoreOutcome {
    Stored(BindingView, bool, Option<AttemptState>),
    Refused(AttemptReportStoreError),
    Conflict(Seq<char>, Seq<char>),
    MissingAttempt(Seq<char>),
}

/// What storing a report does. The first report for an (attempt, node) is
/// the evidence: an exact replay (same body, same signer) returns it, any
/// other report conflicts. A new report must bind to its attempt and, while
/// the node's reservation is this attempt's, to the reservation too; it is
/// stored, and the attempt moves to the state the report proves, in one
/// step. Any refusal stores nothing.
pub open spec fn store_step(
    m: ReportMap,
    r: AttemptReportFacts,
    rule_violation: Option<String>,
    signer_id: Seq<char>,
    body: Seq<u8>,
    hash: Seq<u8>,
    attempt: Option<StoredAttempt>,
    reservation: Option<StoredNodeReservation>,
) -> (ReportMap, StoreOutcome) {
    let key = (r.attempt_id@, r.node_id@);
    if input_error(r, rule_violation) is Some {
        (m, StoreOutcome::Refused(input_error(r, rule_violation)->0))
    } else if m.contains_key(key) {
        if m[key].report_body != body || m[key].signer_id_at_submission != signer_id {
            (m, StoreOutcome::Conflict(r.attempt_id@, r.node_id@))
        } else {
            (m, StoreOutcome::Stored(m[key], false, None))
        }
    } else if attempt is None {
        (m, StoreOutcome::MissingAttempt(r.attempt_id@))
    } else if attempt_binding_error(r, signer_id, attempt->0) is Some {
        (m, StoreOutcome::Refused(AttemptReportStoreError::BindingMismatch(attempt_binding_error(r, signer_id, attempt->0)->0)))
    } else if reservation matches Some(res) && res.attempt_id@ == r.attempt_id@ && reservation_binding_error(r, res) is Some {
        (m, StoreOutcome::Refused(AttemptReportStoreError::BindingMismatch(reservation_binding_error(r, reservation->0)->0)))
    } else {
        let via = if reservation matches Some(res) && res.attempt_id@ == r.attempt_id@ {
            ReportBindingSource::CurrentReservation
        } else {
            ReportBindingSource::AssignmentRecord
        };
        match attempt_move(r, attempt->0) {
            Err((from, to)) => (m, StoreOutcome::Refused(AttemptReportStoreError::AttemptStateUnreachable { from, to })),
            Ok(moved) => {
                let b = new_binding(r, signer_id, body, hash, via);
                (m.insert(key, b), StoreOutcome::Stored(b, true, moved))
            },
        }
    }
}

pub open spec fn outcome_of(r: Result<StoreAttemptReportResult, AttemptReportStoreError>) -> StoreOutcome {
    match r {
        Ok(s) => StoreOutcome::Stored(s.binding@, s.created, s.attempt_state),
        Err(AttemptReportStoreError::ReportConflict { attempt_id, node_id }) => StoreOutcome::Conflict(
            attempt_id@,
            node_id@,
        ),
        Err(AttemptReportStoreError::AttemptNotFound { attempt_id }) => StoreOutcome::MissingAttempt(attempt_id@),
        Err(e) => StoreOutcome::Refused(e),
    }
}

spec fn report_key() -> spec_fn(StoredAttemptReportBinding) -> ReportKey {
    |b: StoredAttemptReportBinding| (b.bound_attempt_id@, b.bound_node_id@)
}

spec fn report_val() -> spec_fn(StoredAttemptReportBinding) -> BindingView {
    |b: StoredAttemptReportBinding| b@
}

/// The stored terminal reports, one per (attempt, node).
pub struct CoordinatorAttemptReportStore {
    reports: Vec<StoredAttemptReportBinding>,
}

impl View for CoordinatorAttemptReportStore {
    type V = ReportMap;

    closed spec fn view(&self) -> ReportMap {
        table_map(self.reports@, report_key(), report_val())
    }
}

impl CoordinatorAttemptReportStore {
    pub closed spec fn wf(&self) -> bool {
        keys_unique(self.reports@, report_key())
    }

    pub fn new() -> (s: Self)
        ensures
            s.wf(),
            s@ == Map::<ReportKey, BindingView>::empty(),
    {
        let s = CoordinatorAttemptReportStore { reports: Vec::new() };
        assert(s@ =~= Map::<ReportKey, BindingView>::empty());
        s
    }

    fn find(&self, attempt_id: &str, node_id: &str) -> (r: Option<usize>)
        requires
            self.wf(),
        ensures
            match r {
                Some(i) => i < self.reports@.len() && self@.contains_key((attempt_id@, node_id@))
                    && self@[(attempt_id@, node_id@)] == self.reports@[i as int]@,
                None => !self@.contains_key((attempt_id@, node_id@)),
            },
    {
        let mut i: usize = 0;
        while i < self.reports.len()
            invariant
                keys_unique(self.reports@, report_key()),
                i <= self.reports@.len(),
                forall|k: int| 0 <= k < i ==> report_key()(#[trigger] self.reports@[k]) != (attempt_id@, node_id@),
            decreases self.reports@.len() - i,
        {
            let b = &self.reports[i];
            if str_eq(b.bound_attempt_id.as_str(), attempt_id) && str_eq(b.bound_node_id.as_str(), node_id) {
                proof {
                    lemma_table_at(self.reports@, report_key(), report_val(), i as int);
                }
                return Some(i);
            }
            i = i + 1;
        }
        proof {
            lemma_table_absent(self.reports@, report_key(), report_val(), (attempt_id@, node_id@));
        }
        None
    }

    /// Puts a report read back from durable rows (see `check_report_row`)
    /// into the store. A second report for the same attempt and node is
    /// refused and nothing changes.
    pub fn restore(&mut self, binding: StoredAttemptReportBinding) -> (r: Result<(), AttemptReportStoreError>)
        requires
            old(self).wf(),
        ensures
            final(self).wf(),
            if old(self)@.contains_key((binding.bound_attempt_id@, binding.bound_node_id@)) {
                r is Err && final(self)@ == old(self)@
            } else {
                r is Ok && final(self)@ == old(self)@.insert((binding.bound_attempt_id@, binding.bound_node_id@), binding@)
            },
    {
        if self.find(binding.bound_attempt_id.as_str(), binding.bound_node_id.as_str()).is_some() {
            return Err(
                AttemptReportStoreError::ReportConflict {
                    attempt_id: copy_string(&binding.bound_attempt_id),
                    node_id: copy_string(&binding.bound_node_id),
                },
            );
        }
        proof {
            lemma_table_push(self.reports@, report_key(), report_val(), binding);
        }
        self.reports.push(binding);
        Ok(())
    }

    /// The stored report of `node_id` for `attempt_id`, if any.
    pub fn get_report_binding(&self, attempt_id: &str, node_id: &str) -> (r: Option<StoredAttemptReportBinding>)
        requires
            self.wf(),
        ensures
            match r {
                Some(b) => self@.contains_key((attempt_id@, node_id@)) && b@ == self@[(attempt_id@, node_id@)],
                None => !self@.contains_key((attempt_id@, node_id@)),
            },
    {
        match self.find(attempt_id, node_id) {
            Some(i) => Some(self.reports[i].copied()),
            None => None,
        }
    }

    /// Stores terminal evidence after binding it to the durable attempt
    /// (see `store_step`). `body` is the report as signed and `report_hash`
    /// its hash; `attempt` and `reservation` are the stored facts read in the
    /// same transaction.
    pub fn store_verified_terminal_report(
        &mut self,
        report: &AttemptReportFacts,
        rule_violation: Option<String>,
        signer_id: &str,
        body: &Vec<u8>,
        report_hash: [u8; 32],
        attempt: Option<&StoredAttempt>,
        reservation: Option<&StoredNodeReservation>,
    ) -> (r: Result<StoreAttemptReportResult, AttemptReportStoreError>)
        requires
            old(self).wf(),
        ensures
            final(self).wf(),
            (final(self)@, outcome_of(r)) == store_step(
                old(self)@,
                *report,
                rule_violation,
                signer_id@,
                body@,
                report_hash@,
                match attempt {
                    Some(a) => Some(*a),
                    None => None,
                },
                match reservation {
                    Some(x) => Some(*x),
                    None => None,
                },
            ),
    {
        validate_report_input(report, rule_violation)?;
        match self.find(report.attempt_id.as_str(), report.node_id.as_str()) {
            Some(i) => {
                let stored = &self.reports[i];
                if !crate::job_store::same_bytes(&stored.report_body, body) || !str_eq(
                    stored.signer_id_at_submission.as_str(),
                    signer_id,
                ) {
                    return Err(
                        AttemptReportStoreError::ReportConflict {
                            attempt_id: copy_string(&report.attempt_id),
                            node_id: copy_string(&report.node_id),
                        },
                    );
                }
                return Ok(StoreAttemptReportResult { binding: stored.copied(), created: false, attempt_state: None });
            },
            None => {},
        }
        let a = match attempt {
            None => {
                return Err(AttemptReportStoreError::AttemptNotFound { attempt_id: copy_string(&report.attempt_id) });
            },
            Some(a) => a,
        };
        bind_attempt(report, signer_id, a)?;
        let current = match reservation {
            Some(res) => str_eq(res.attempt_id.as_str(), report.attempt_id.as_str()),
            None => false,
        };
        let bound_via = if current {
            match reservation {
                Some(res) => bind_reservation(report, res)?,
                None => {},
            }
            ReportBindingSource::CurrentReservation
        } else {
            ReportBindingSource::AssignmentRecord
        };
        let moved = match terminal_state_for(report.outcome_kind) {
            None => None,
            Some(target) => if a.state == target {
                None
            } else {
                let observed = match report.exit_observation {
                    Some(ExitObservation::ObservedWithCode) | Some(ExitObservation::ObservedNoCode) => true,
                    _ => false,
                };
                match normative_path(a.state, target, observed) {
                    None => {
                        return Err(AttemptReportStoreError::AttemptStateUnreachable { from: a.state, to: target });
                    },
                    Some(_) => Some(target),
                }
            },
        };
        let binding = StoredAttemptReportBinding {
            report_body: crate::job_store::copy_bytes(body),
            report_hash,
            signer_id_at_submission: String::from_str(signer_id),
            bound_job_id: copy_string(&report.job_id),
            bound_attempt_id: copy_string(&report.attempt_id),
            bound_node_id: copy_string(&report.node_id),
            bound_fence_epoch: report.fence_epoch,
            bound_via,
        };
        proof {
            lemma_table_push(self.reports@, report_key(), report_val(), binding);
        }
        let result = binding.copied();
        self.reports.push(binding);
        Ok(StoreAttemptReportResult { binding: result, created: true, attempt_state: moved })
    }
}

/// One stored report row as the durable store holds it.
#[derive(Debug, Clone, PartialEq, Eq)]
pub struct RawReportRow {
    pub attempt_id: String,
    pub node_id: String,
    pub job_id: String,
    pub fence_epoch: Vec<u8>,
    pub verified_signer_id: String,
    pub report_hash: Vec<u8>,
    pub report_body: Vec<u8>,
    pub bound_via: String,
}

/// The first way a stored row fails to hold together, in the order it is
/// checked: the body, its hash (width, then value against `body_hash`, the
/// hash of the stored body), that it decodes (`decoded`), that its outcome
/// is terminal and its field rules hold (`rule_ok`), that the report names
/// the row's job, attempt and node and the row's signer is that node, the
/// fence (width, then value), the stored attempt (present, same job, only
/// that node, same fence), and the binding-source name.
pub open spec fn row_corruption(
    row: RawReportRow,
    body_hash: Seq<u8>,
    decoded: Option<AttemptReportFacts>,
    rule_ok: bool,
    attempt: Option<StoredAttempt>,
) -> Option<AttemptReportCorruption> {
    if row.report_body@.len() == 0 {
        Some(AttemptReportCorruption::EmptyBody)
    } else if row.report_hash@.len() != 32 {
        Some(AttemptReportCorruption::HashEncoding)
    } else if body_hash != row.report_hash@ {
        Some(AttemptReportCorruption::HashMismatch)
    } else if decoded is None {
        Some(AttemptReportCorruption::UndecodableBody)
    } else if !terminal_outcome(decoded->0.outcome_kind) {
        Some(AttemptReportCorruption::InvalidOutcome)
    } else if !rule_ok {
        Some(AttemptReportCorruption::ReportRule)
    } else if decoded->0.job_id@ != row.job_id@ {
        Some(AttemptReportCorruption::JobIdMismatch)
    } else if decoded->0.attempt_id@ != row.attempt_id@ {
        Some(AttemptReportCorruption::AttemptIdMismatch)
    } else if decoded->0.node_id@ != row.node_id@ {
        Some(AttemptReportCorruption::NodeIdMismatch)
    } else if row.verified_signer_id@ != row.node_id@ || row.verified_signer_id@ != decoded->0.node_id@ {
        Some(AttemptReportCorruption::SignerIdMismatch)
    } else if row.fence_epoch@.len() != 8 {
        Some(AttemptReportCorruption::FenceEpochEncoding)
    } else if decoded->0.fence_epoch != be_value(row.fence_epoch@) {
        Some(AttemptReportCorruption::FenceEpochMismatch)
    } else if attempt is None {
        Some(AttemptReportCorruption::MissingAttempt)
    } else if attempt->0.job_id@ != row.job_id@ {
        Some(AttemptReportCorruption::JobIdMismatch)
    } else if !only_node(attempt->0.node_ids@, row.node_id@) {
        Some(AttemptReportCorruption::NodeIdMismatch)
    } else if attempt->0.fence_epoch != be_value(row.fence_epoch@) {
        Some(AttemptReportCorruption::FenceEpochMismatch)
    } else if parsed_binding_source(row.bound_via@) is None {
        Some(AttemptReportCorruption::BindingSource)
    } else {
        None
    }
}

fn corrupt(row: &RawReportRow, kind: AttemptReportCorruption) -> (e: AttemptReportStoreError)
    ensures
        e matches AttemptReportStoreError::Corrupt { attempt_id, node_id, kind: k } && attempt_id@
            == row.attempt_id@ && node_id@ == row.node_id@ && k == kind,
{
    AttemptReportStoreError::Corrupt {
        attempt_id: copy_string(&row.attempt_id),
        node_id: copy_string(&row.node_id),
        kind,
    }
}

/// Reads a stored report row back, failing closed on any corruption (see
/// `row_corruption`). What the hash of the body is, what the body decodes
/// to and whether its field rules hold are handed in.
pub fn check_report_row(
    row: &RawReportRow,
    body_hash: &[u8; 32],
    decoded: Option<&AttemptReportFacts>,
    rule_ok: bool,
    attempt: Option<&StoredAttempt>,
) -> (r: Result<StoredAttemptReportBinding, AttemptReportStoreError>)
    ensures
        match row_corruption(
            *row,
            body_hash@,
            match decoded {
                Some(d) => Some(*d),
                None => None,
            },
            rule_ok,
            match attempt {
                Some(a) => Some(*a),
                None => None,
            },
        ) {
            Some(kind) => r matches Err(AttemptReportStoreError::Corrupt { attempt_id, node_id, kind: k })
                && attempt_id@ == row.attempt_id@ && node_id@ == row.node_id@ && k == kind,
            None => r matches Ok(b) && b@ == (BindingView {
                report_body: row.report_body@,
                report_hash: row.report_hash@,
                signer_id_at_submission: row.verified_signer_id@,
                bound_job_id: row.job_id@,
                bound_attempt_id: row.attempt_id@,
                bound_node_id: row.node_id@,
                bound_fence_epoch: be_value(row.fence_epoch@) as u64,
                bound_via: parsed_binding_source(row.bound_via@)->0,
            }),
        },
{
    if row.report_body.len() == 0 {
        return Err(corrupt(row, AttemptReportCorruption::EmptyBody));
    }
    let hash = match crate::job_store::decode_hash(crate::job_store::copy_bytes(&row.report_hash)) {
        Ok(h) => h,
        Err(_) => {
            return Err(corrupt(row, AttemptReportCorruption::HashEncoding));
        },
    };
    if !crate::job_store::same_hash(body_hash, &hash) {
        return Err(corrupt(row, AttemptReportCorruption::HashMismatch));
    }
    let report = match decoded {
        None => {
            return Err(corrupt(row, AttemptReportCorruption::UndecodableBody));
        },
        Some(d) => d,
    };
    if !is_terminal_outcome(report.outcome_kind) {
        return Err(corrupt(row, AttemptReportCorruption::InvalidOutcome));
    }
    if !rule_ok {
        return Err(corrupt(row, AttemptReportCorruption::ReportRule));
    }
    if !str_eq(report.job_id.as_str(), row.job_id.as_str()) {
        return Err(corrupt(row, AttemptReportCorruption::JobIdMismatch));
    }
    if !str_eq(report.attempt_id.as_str(), row.attempt_id.as_str()) {
        return Err(corrupt(row, AttemptReportCorruption::AttemptIdMismatch));
    }
    if !str_eq(report.node_id.as_str(), row.node_id.as_str()) {
        return Err(corrupt(row, AttemptReportCorruption::NodeIdMismatch));
    }
    if !str_eq(row.verified_signer_id.as_str(), row.node_id.as_str()) || !str_eq(
        row.verified_signer_id.as_str(),
        report.node_id.as_str(),
    ) {
        return Err(corrupt(row, AttemptReportCorruption::SignerIdMismatch));
    }
    let fence = match decode_u64(row.fence_epoch.as_slice(), "fence_epoch") {
        Ok(v) => v,
        Err(_) => {
            return Err(corrupt(row, AttemptReportCorruption::FenceEpochEncoding));
        },
    };
    if report.fence_epoch != fence {
        return Err(corrupt(row, AttemptReportCorruption::FenceEpochMismatch));
    }
    let a = match attempt {
        None => {
            return Err(corrupt(row, AttemptReportCorruption::MissingAttempt));
        },
        Some(a) => a,
    };
    if !str_eq(a.job_id.as_str(), row.job_id.as_str()) {
        return Err(corrupt(row, AttemptReportCorruption::JobIdMismatch));
    }
    if !is_only_node(&a.node_ids, row.node_id.as_str()) {
        return Err(corrupt(row, AttemptReportCorruption::NodeIdMismatch));
    }
    if a.fence_epoch != fence {
        return Err(corrupt(row, AttemptReportCorruption::FenceEpochMismatch));
    }
    let bound_via = match ReportBindingSource::parse(row.bound_via.as_str()) {
        None => {
            return Err(corrupt(row, AttemptReportCorruption::BindingSource));
        },
        Some(b) => b,
    };
    Ok(
        StoredAttemptReportBinding {
            report_body: crate::job_store::copy_bytes(&row.report_body),
            report_hash: hash,
            signer_id_at_submission: copy_string(&row.verified_signer_id),
            bound_job_id: copy_string(&row.job_id),
            bound_attempt_id: copy_string(&row.attempt_id),
            bound_node_id: copy_string(&row.node_id),
            bound_fence_epoch: fence,
            bound_via,
        },
    )
}

impl StoredAttemptReportBinding {
    /// The row this binding is written as.
    pub fn to_row(&self) -> (r: RawReportRow)
        ensures
            r.attempt_id@ == self.bound_attempt_id@,
            r.node_id@ == self.bound_node_id@,
            r.job_id@ == self.bound_job_id@,
            r.fence_epoch@ == be_bytes(self.bound_fence_epoch as nat, 8),
            r.verified_signer_id@ == self.signer_id_at_submission@,
            r.report_hash@ == self.report_hash@,
            r.report_body@ == self.report_body@,
            r.bound_via@ == binding_source_name(self.bound_via),
    {
        let mut hash: Vec<u8> = Vec::new();
        let mut i: usize = 0;
        while i < 32
            invariant
                self.report_hash@.len() == 32,
                i <= 32,
                hash@ == self.report_hash@.take(i as int),
            decreases 32 - i,
        {
            hash.push(self.report_hash[i]);
            proof {
                assert(self.report_hash@.take(i + 1) =~= self.report_hash@.take(i as int).push(self.report_hash@[i as int]));
            }
            i = i + 1;
        }
        proof {
            assert(self.report_hash@.take(32) =~= self.report_hash@);
        }
        RawReportRow {
            attempt_id: copy_string(&self.bound_attempt_id),
            node_id: copy_string(&self.bound_node_id),
            job_id: copy_string(&self.bound_job_id),
            fence_epoch: encode_u64(self.bound_fence_epoch),
            verified_signer_id: copy_string(&self.signer_id_at_submission),
            report_hash: hash,
            report_body: crate::job_store::copy_bytes(&self.report_body),
            bound_via: String::from_str(self.bound_via.as_str()),
        }
    }
}

/// The first stored report is the evidence: once a report for an (attempt,
/// node) is stored, the same report again returns it unchanged, and a
/// different body or signer conflicts; neither changes the store. A refused
/// report stores nothing.
pub proof fn law_first_report_is_the_evidence(
    m: ReportMap,
    r: AttemptReportFacts,
    rule_violation: Option<String>,
    signer_id: Seq<char>,
    body: Seq<u8>,
    hash: Seq<u8>,
    attempt: Option<StoredAttempt>,
    reservation: Option<StoredNodeReservation>,
    other_signer: Seq<char>,
    other_body: Seq<u8>,
    other_hash: Seq<u8>,
)
    ensures
        ({
            let (m1, o1) = store_step(m, r, rule_violation, signer_id, body, hash, attempt, reservation);
            &&& (o1 matches StoreOutcome::Stored(b, _, _) ==> ({
                let (m2, o2) = store_step(m1, r, rule_violation, signer_id, body, hash, attempt, reservation);
                m2 == m1 && o2 == StoreOutcome::Stored(b, false, None)
            }))
            &&& (o1 is Stored && (other_body != body || other_signer != signer_id) ==> ({
                let (m2, o2) = store_step(m1, r, rule_violation, other_signer, other_body, other_hash, attempt, reservation);
                m2 == m1 && o2 == StoreOutcome::Conflict(r.attempt_id@, r.node_id@)
            }))
            &&& (!(o1 is Stored) ==> m1 == m)
        }),
{
}

impl BindingField {
    /// The variant's name, as `{:?}` writes it.
    pub open spec fn debug_name(self) -> Seq<char> {
        match self {
            BindingField::JobId => "JobId"@,
            BindingField::AttemptId => "AttemptId"@,
            BindingField::NodeId => "NodeId"@,
            BindingField::SignerId => "SignerId"@,
            BindingField::FenceEpoch => "FenceEpoch"@,
            BindingField::ReservationJobId => "ReservationJobId"@,
            BindingField::ReservationAttemptId => "ReservationAttemptId"@,
            BindingField::ReservationNodeId => "ReservationNodeId"@,
        }
    }

    /// See `debug_name`.
    pub fn name(&self) -> (r: &'static str)
        ensures
            r@ == self.debug_name(),
    {
        match self {
            BindingField::JobId => "JobId",
            BindingField::AttemptId => "AttemptId",
            BindingField::NodeId => "NodeId",
            BindingField::SignerId => "SignerId",
            BindingField::FenceEpoch => "FenceEpoch",
            BindingField::ReservationJobId => "ReservationJobId",
            BindingField::ReservationAttemptId => "ReservationAttemptId",
            BindingField::ReservationNodeId => "ReservationNodeId",
        }
    }
}

impl AttemptReportCorruption {
    /// The variant's name, as `{:?}` writes it.
    pub open spec fn debug_name(self) -> Seq<char> {
        match self {
            AttemptReportCorruption::EmptyBody => "EmptyBody"@,
            AttemptReportCorruption::UndecodableBody => "UndecodableBody"@,
            AttemptReportCorruption::HashEncoding => "HashEncoding"@,
            AttemptReportCorruption::HashMismatch => "HashMismatch"@,
            AttemptReportCorruption::JobIdMismatch => "JobIdMismatch"@,
            AttemptReportCorruption::AttemptIdMismatch => "AttemptIdMismatch"@,
            AttemptReportCorruption::NodeIdMismatch => "NodeIdMismatch"@,
            AttemptReportCorruption::SignerIdMismatch => "SignerIdMismatch"@,
            AttemptReportCorruption::FenceEpochEncoding => "FenceEpochEncoding"@,
            AttemptReportCorruption::FenceEpochMismatch => "FenceEpochMismatch"@,
            AttemptReportCorruption::InvalidOutcome => "InvalidOutcome"@,
            AttemptReportCorruption::ReportRule => "ReportRule"@,
            AttemptReportCorruption::MissingAttempt => "MissingAttempt"@,
            AttemptReportCorruption::BindingSource => "BindingSource"@,
        }
    }

    /// See `debug_name`.
    pub fn name(&self) -> (r: &'static str)
        ensures
            r@ == self.debug_name(),
    {
        match self {
            AttemptReportCorruption::EmptyBody => "EmptyBody",
            AttemptReportCorruption::UndecodableBody => "UndecodableBody",
            AttemptReportCorruption::HashEncoding => "HashEncoding",
            AttemptReportCorruption::HashMismatch => "HashMismatch",
            AttemptReportCorruption::JobIdMismatch => "JobIdMismatch",
            AttemptReportCorruption::AttemptIdMismatch => "AttemptIdMismatch",
            AttemptReportCorruption::NodeIdMismatch => "NodeIdMismatch",
            AttemptReportCorruption::SignerIdMismatch => "SignerIdMismatch",
            AttemptReportCorruption::FenceEpochEncoding => "FenceEpochEncoding",
            AttemptReportCorruption::FenceEpochMismatch => "FenceEpochMismatch",
            AttemptReportCorruption::InvalidOutcome => "InvalidOutcome",
            AttemptReportCorruption::ReportRule => "ReportRule",
            AttemptReportCorruption::MissingAttempt => "MissingAttempt",
            AttemptReportCorruption::BindingSource => "BindingSource",
        }
    }
}

/// The text of an attempt-report store error.
pub open spec fn report_error_text(e: AttemptReportStoreError) -> Seq<char>
{
    match e {
        AttemptReportStoreError::InvalidInput(f) => "invalid AttemptReport input: "@ + f@,
        AttemptReportStoreError::InvalidOutcome(o) => "AttemptReport outcome is not a known terminal value: "@ + signed_decimal(o as int),
        AttemptReportStoreError::ReportRule(rule) => "AttemptReport field combination rejected: "@ + rule@,
        AttemptReportStoreError::AttemptNotFound { attempt_id } => "AttemptReport references missing Attempt: "@ + attempt_id@,
        AttemptReportStoreError::ReservationNotFound { node_id } => "AttemptReport node has no current reservation: "@ + node_id@,
        AttemptReportStoreError::BindingMismatch(field) => "AttemptReport durable binding mismatch: "@ + field.debug_name(),
        AttemptReportStoreError::AttemptStateUnreachable { from, to } => "the terminal state this report proves cannot be reached along the normative table: "@ + from.debug_name() + " -> "@ + to.debug_name(),
        AttemptReportStoreError::ReportConflict { attempt_id, node_id } => "AttemptReport conflicts with first durable evidence: attempt="@ + attempt_id@ + ", node="@ + node_id@,
        AttemptReportStoreError::Corrupt { attempt_id, node_id, kind } => "durable AttemptReport is corrupt: attempt="@ + attempt_id@ + ", node="@ + node_id@ + ", kind="@ + kind.debug_name(),
        AttemptReportStoreError::Staging(m) => "AttemptReport staging-state read failed: "@ + m@,
        AttemptReportStoreError::Io(m) => "AttemptReport store I/O error: "@ + m@,
        AttemptReportStoreError::LockTimeout => "AttemptReport store lock acquisition timed out"@,
    }
}

impl AttemptReportStoreError {
    /// The error's text.
    pub fn message(&self) -> (r: String)
        ensures
            r@ == report_error_text(*self),
    {
        match self {
            AttemptReportStoreError::InvalidInput(f) => {
                let mut r = String::from_str("invalid AttemptReport input: ");
                push_str(&mut r, f);
                r
            },
            AttemptReportStoreError::InvalidOutcome(o) => {
                let mut r = String::from_str("AttemptReport outcome is not a known terminal value: ");
                push_signed_decimal(&mut r, *o as i64);
                r
            },
            AttemptReportStoreError::ReportRule(rule) => {
                let mut r = String::from_str("AttemptReport field combination rejected: ");
                push_str(&mut r, rule.as_str());
                r
            },
            AttemptReportStoreError::AttemptNotFound { attempt_id } => {
                let mut r = String::from_str("AttemptReport references missing Attempt: ");
                push_str(&mut r, attempt_id.as_str());
                r
            },
            AttemptReportStoreError::ReservationNotFound { node_id } => {
                let mut r = String::from_str("AttemptReport node has no current reservation: ");
                push_str(&mut r, node_id.as_str());
                r
            },
            AttemptReportStoreError::BindingMismatch(field) => {
                let mut r = String::from_str("AttemptReport durable binding mismatch: ");
                push_str(&mut r, field.name());
                r
            },
            AttemptReportStoreError::AttemptStateUnreachable { from, to } => {
                let mut r = String::from_str("the terminal state this report proves cannot be reached along the normative table: ");
                push_str(&mut r, from.name());
                push_str(&mut r, " -> ");
                push_str(&mut r, to.name());
                r
            },
            AttemptReportStoreError::ReportConflict { attempt_id, node_id } => {
                let mut r = String::from_str("AttemptReport conflicts with first durable evidence: attempt=");
                push_str(&mut r, attempt_id.as_str());
                push_str(&mut r, ", node=");
                push_str(&mut r, node_id.as_str());
                r
            },
            AttemptReportStoreError::Corrupt { attempt_id, node_id, kind } => {
                let mut r = String::from_str("durable AttemptReport is corrupt: attempt=");
                push_str(&mut r, attempt_id.as_str());
                push_str(&mut r, ", node=");
                push_str(&mut r, node_id.as_str());
                push_str(&mut r, ", kind=");
                push_str(&mut r, kind.name());
                r
            },
            AttemptReportStoreError::Staging(m) => {
                let mut r = String::from_str("AttemptReport staging-state read failed: ");
                push_str(&mut r, m.as_str());
                r
            },
            AttemptReportStoreError::Io(m) => {
                let mut r = String::from_str("AttemptReport store I/O error: ");
                push_str(&mut r, m.as_str());
                r
            },
            AttemptReportStoreError::LockTimeout => {
                let mut r = String::from_str("AttemptReport store lock acquisition timed out");
                r
            },
        }
    }
}


} // verus!
