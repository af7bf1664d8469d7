//! Decisions of the coordinator's serving loop: start-up checks, the accept
//! loop, and what each stage of a session accepts, refuses or answers. The
//! socket, the frames and the signatures stay with the caller; every choice
//! between them is made here.
use vstd::prelude::*;

use crate::config::{options_of, CoordinatorConfig};
use crate::session::{
    attempt_report_refusal, device_id_error, device_id_ok, heartbeat_refusal, lane_from_config,
    neighbor_report_refusal, refusal_text, session_error_text, unsupported_attempt_report_lane,
    unsupported_heartbeat_lane, unsupported_neighbor_report_lane, validate_device_id,
    CoordinatorSessionError, SessionLane,
};
use crate::attempt_report_store::{terminal_outcome, is_terminal_outcome, AttemptReportFacts, AttemptReportStoreError};
use crate::grant_from_stored::StoredGrantRequest;
use crate::lease_store::{
    get_or_issue_step, CoordinatorLeaseStore, LeaseMap, LeaseStoreError, ResumeDecision,
    ResumeRequestIdentity, StoredLease,
};
use crate::session::{classify_resume_store_error, u32_from_stored, RenewPlan};
use crate::text::{
    copy_string, decimal, push_decimal, push_signed_decimal, push_str, refuse, signed_decimal, starts_with, str_eq,
};

verus! {

/// Which serving loop a coordinator that passed its first checks runs.
#[derive(Debug, Clone, Copy, PartialEq, Eq, Structural)]
pub enum StartupRoute {
    /// One thread per connection.
    MultiAgent,
    /// One connection after another.
    Sequential,
}

/// The checks made before any store is opened: both device identifiers must
/// be usable, the agent's checked first, a refusal being the validator's own; the multi-agent lane goes its own way; and the sequential lane
/// without a lease store runs only when the operator accepted that legacy
/// mode has no revocation, expiry or lifetime protection.
pub fn check_startup(c: &CoordinatorConfig) -> (r: Result<StartupRoute, String>)
    ensures
        !device_id_ok(c.agent_device_id@) ==> (r matches Err(m) && m@ == device_id_error(c.agent_device_id@)),
        device_id_ok(c.agent_device_id@) && !device_id_ok(c.coordinator_device_id@) ==> (r matches Err(m)
            && m@ == device_id_error(c.coordinator_device_id@)),
        device_id_ok(c.agent_device_id@) && device_id_ok(c.coordinator_device_id@) && c.multi_agent ==> r
            == Ok::<StartupRoute, String>(StartupRoute::MultiAgent),
        device_id_ok(c.agent_device_id@) && device_id_ok(c.coordinator_device_id@) && !c.multi_agent && (
        c.lease_db_path is Some || c.allow_unsafe_legacy_mode) ==> r == Ok::<StartupRoute, String>(
            StartupRoute::Sequential,
        ),
        device_id_ok(c.agent_device_id@) && device_id_ok(c.coordinator_device_id@) && !c.multi_agent
            && c.lease_db_path is None && !c.allow_unsafe_legacy_mode ==> (r matches Err(m) && m@ == "LEGACY_MODE_REFUSED: "@
            + "running without --lease-db has no revocation, expiry or max-duration protection; pass --i-understand-legacy-mode-is-unsafe true to use this compatibility mode on purpose"@),
{
    validate_device_id(c.agent_device_id.as_str())?;
    validate_device_id(c.coordinator_device_id.as_str())?;
    if c.multi_agent {
        return Ok(StartupRoute::MultiAgent);
    }
    if c.lease_db_path.is_none() && !c.allow_unsafe_legacy_mode {
        return Err(
            refuse(
                "LEGACY_MODE_REFUSED: ",
                "running without --lease-db has no revocation, expiry or max-duration protection; pass --i-understand-legacy-mode-is-unsafe true to use this compatibility mode on purpose",
            ),
        );
    }
    Ok(StartupRoute::Sequential)
}

/// The lane checks of the sequential loop, made once the lease store is
/// open and before the other stores are: what the lane cannot receive is
/// refused (neighbor reports, attempt reports, heartbeats, in that order),
/// then a manifest file beside a control database, then Resume beside a
/// control database, and expected neighbor reports without their store.
pub open spec fn lane_startup_refusal(c: CoordinatorConfig) -> Option<Seq<char>> {
    let o = options_of(c);
    let lane = if c.multi_agent {
        SessionLane::MultiAgent
    } else {
        SessionLane::Sequential
    };
    if neighbor_report_refusal(o, lane) is Some {
        Some(refusal_text("neighbor reports"@, neighbor_report_refusal(o, lane)->0))
    } else if attempt_report_refusal(o, lane) is Some {
        Some(refusal_text("attempt reports"@, attempt_report_refusal(o, lane)->0))
    } else if heartbeat_refusal(o, lane) is Some {
        Some(refusal_text("heartbeats"@, heartbeat_refusal(o, lane)->0))
    } else {
        None
    }
}

/// The start-up refusal a configuration meets after its lease store was
/// opened: a manifest file beside a control database, Resume beside a
/// control database, expected neighbor reports without their store.
pub open spec fn late_startup_refusal(c: CoordinatorConfig) -> Option<Seq<char>> {
    if c.grant_from_control_db is Some && c.manifest_file is Some {
        Some("STARTUP_REFUSED: MANIFEST_WITH_CONTROL_DB"@
            + " --manifest-file cannot be used with --grant-from-control-db: the stored-reservation lane carries only the stored manifest"@)
    } else if c.resume_protocol && c.grant_from_control_db is Some {
        Some("STARTUP_REFUSED: RESUME_WITH_CONTROL_DB"@
            + " --grant-from-control-db cannot be used with --resume-protocol: Resume returns before a Grant is built from the stored reservation"@)
    } else if c.expect_neighbor_reports > 0 && c.neighbor_report_db_path is None {
        Some("STARTUP_REFUSED: NEIGHBOR_REPORT_DB_MISSING"@ + " --expect-neighbor-reports needs --neighbor-report-db"@)
    } else {
        None
    }
}

/// See `lane_startup_refusal` and `late_startup_refusal`.
pub fn check_lanes(c: &CoordinatorConfig) -> (r: Result<(), String>)
    ensures
        match lane_startup_refusal(*c) {
            Some(text) => r matches Err(m) && m@ == text,
            None => match late_startup_refusal(*c) {
                Some(text) => r matches Err(m) && m@ == text,
                None => r is Ok,
            },
        },
{
    let options = c.session_options();
    let lane = lane_from_config(c.multi_agent);
    if let Some(m) = unsupported_neighbor_report_lane(&options, lane) {
        return Err(m);
    }
    if let Some(m) = unsupported_attempt_report_lane(&options, lane) {
        return Err(m);
    }
    if let Some(m) = unsupported_heartbeat_lane(&options, lane) {
        return Err(m);
    }
    if c.grant_from_control_db.is_some() && c.manifest_file.is_some() {
        return Err(
            refuse(
                "STARTUP_REFUSED: MANIFEST_WITH_CONTROL_DB",
                " --manifest-file cannot be used with --grant-from-control-db: the stored-reservation lane carries only the stored manifest",
            ),
        );
    }
    if c.resume_protocol && c.grant_from_control_db.is_some() {
        return Err(
            refuse(
                "STARTUP_REFUSED: RESUME_WITH_CONTROL_DB",
                " --grant-from-control-db cannot be used with --resume-protocol: Resume returns before a Grant is built from the stored reservation",
            ),
        );
    }
    if c.expect_neighbor_reports > 0 && c.neighbor_report_db_path.is_none() {
        return Err(
            refuse(
                "STARTUP_REFUSED: NEIGHBOR_REPORT_DB_MISSING",
                " --expect-neighbor-reports needs --neighbor-report-db",
            ),
        );
    }
    Ok(())
}

/// What the accept loop does before it accepts: once `max_connections`
/// connections were taken it gives up; otherwise it pauses for
/// `pause_ms` before every accept but the first (0 is no pause).
pub fn before_accept(connection_count: u32, max_connections: u32, pause_ms: u64) -> (r: Result<u64, String>)
    ensures
        connection_count >= max_connections ==> r is Err,
        connection_count < max_connections ==> r == Ok::<u64, String>(
            if connection_count > 0 {
                pause_ms
            } else {
                0
            },
        ),
{
    if connection_count >= max_connections {
        return Err(String::from_str("max-connections reached before completed session"));
    }
    if connection_count > 0 {
        Ok(pause_ms)
    } else {
        Ok(0)
    }
}

/// What the accept loop does once a session ended.
#[derive(Debug, Clone, PartialEq, Eq)]
pub enum LoopStep {
    /// Accept the next connection.
    Next,
    /// Every connection was served; the coordinator ends successfully.
    Finish,
    /// The coordinator ends with this error.
    Stop(String),
}

/// After a session: a storage failure stops the coordinator at once, since
/// no trustworthy lease decision can be made any more. Otherwise the loop
/// goes on until `max_connections` connections were taken; the last one
/// decides how the coordinator ends.
pub fn after_session(
    outcome: &Result<(), CoordinatorSessionError>,
    connection_count: u32,
    max_connections: u32,
) -> (r: LoopStep)
    ensures
        match *outcome {
            Ok(()) => r == (if connection_count >= max_connections {
                LoopStep::Finish
            } else {
                LoopStep::Next
            }),
            Err(e) => if e is Storage || connection_count >= max_connections {
                r matches LoopStep::Stop(m) && m@ == session_error_text(e)
            } else {
                r == LoopStep::Next
            },
        },
{
    match outcome {
        Ok(()) => {
            if connection_count >= max_connections {
                LoopStep::Finish
            } else {
                LoopStep::Next
            }
        },
        Err(e) => {
            let storage = match e {
                CoordinatorSessionError::Storage(_) => true,
                _ => false,
            };
            if storage || connection_count >= max_connections {
                LoopStep::Stop(e.message())
            } else {
                LoopStep::Next
            }
        },
    }
}

/// Whether two byte strings are equal.
pub fn bytes_eq(a: &[u8], b: &[u8]) -> (r: bool)
    ensures
        r == (a@ == b@),
{
    if a.len() != b.len() {
        return false;
    }
    let mut i: usize = 0;
    while i < a.len()
        invariant
            a@.len() == b@.len(),
            i <= a@.len(),
            forall|k: int| 0 <= k < i ==> a@[k] == b@[k],
        decreases a@.len() - i,
    {
        if a[i] != b[i] {
            return false;
        }
        i = i + 1;
    }
    proof {
        assert(a@ =~= b@);
    }
    true
}

/// The session modes an agent's Hello can name, as the wire protocol
/// numbers them.
#[derive(Debug, Clone, Copy, PartialEq, Eq)]
pub struct HelloModes {
    /// A fresh session that receives a Grant.
    pub grant: i32,
    /// A single renewal, outside the session that holds the lease.
    pub renew: i32,
    /// A restarted agent asking to resume its lease.
    pub resume: i32,
}

/// Where a sequential-lane Hello leads.
#[derive(Debug, Clone, Copy, PartialEq, Eq, Structural)]
pub enum HelloRoute {
    Fresh,
    Renew,
}

/// Where a sequential-lane Hello leads, or the text of its refusal. The
/// Hello must come from the configured agent; a renewal Hello leads to one
/// renewal; a Grant Hello must carry this connection's number, from which
/// the Grant's nonce is made; any other mode is refused.
pub open spec fn hello_route(
    node_id: Seq<char>,
    mode: i32,
    hello_connection_attempt: u32,
    modes: HelloModes,
    agent_device_id: Seq<char>,
    connection_attempt: u32,
) -> Result<HelloRoute, Seq<char>> {
    if node_id != agent_device_id {
        Err("HELLO_REJECTED: "@ + "node_id differs from the expected "@ + agent_device_id)
    } else if mode == modes.renew {
        Ok(HelloRoute::Renew)
    } else if mode != modes.grant {
        Err("HELLO_REJECTED: "@ + "mode differs: the sequential lane takes only Grant ("@ + signed_decimal(
            modes.grant as int,
        ) + ") and renewal ("@ + signed_decimal(modes.renew as int) + ") Hellos, received "@
            + signed_decimal(mode as int))
    } else if hello_connection_attempt != connection_attempt {
        Err("HELLO_REJECTED: "@ + "connection_attempt differs: expected "@ + decimal(connection_attempt as nat)
            + ", received "@ + decimal(hello_connection_attempt as nat))
    } else {
        Ok(HelloRoute::Fresh)
    }
}

/// See `hello_route`. Refusals start with `HELLO_REJECTED: `.
pub fn route_hello(
    node_id: &str,
    mode: i32,
    hello_connection_attempt: u32,
    modes: HelloModes,
    agent_device_id: &str,
    connection_attempt: u32,
) -> (r: Result<HelloRoute, String>)
    ensures
        match hello_route(node_id@, mode, hello_connection_attempt, modes, agent_device_id@, connection_attempt) {
            Ok(route) => r == Ok::<HelloRoute, String>(route),
            Err(text) => r matches Err(m) && m@ == text && starts_with(m@, "HELLO_REJECTED: "@),
        },
{
    if !str_eq(node_id, agent_device_id) {
        let mut d = String::from_str("node_id differs from the expected ");
        push_str(&mut d, agent_device_id);
        return Err(refuse("HELLO_REJECTED: ", d.as_str()));
    }
    if mode == modes.renew {
        return Ok(HelloRoute::Renew);
    }
    if mode != modes.grant {
        let mut d = String::from_str("mode differs: the sequential lane takes only Grant (");
        push_signed_decimal(&mut d, modes.grant as i64);
        push_str(&mut d, ") and renewal (");
        push_signed_decimal(&mut d, modes.renew as i64);
        push_str(&mut d, ") Hellos, received ");
        push_signed_decimal(&mut d, mode as i64);
        return Err(refuse("HELLO_REJECTED: ", d.as_str()));
    }
    if hello_connection_attempt != connection_attempt {
        let mut d = String::from_str("connection_attempt differs: expected ");
        push_decimal(&mut d, connection_attempt as u64);
        push_str(&mut d, ", received ");
        push_decimal(&mut d, hello_connection_attempt as u64);
        return Err(refuse("HELLO_REJECTED: ", d.as_str()));
    }
    Ok(HelloRoute::Fresh)
}

/// The fields of a Grant acknowledgement that the coordinator checks.
#[derive(Debug, Clone, PartialEq, Eq)]
pub struct GrantAckFields {
    pub accepted: bool,
    pub grant_id: String,
    pub attempt_id: String,
    pub agent_device_id: String,
    pub nonce: Vec<u8>,
}

/// An acknowledgement is taken only if the agent accepted, and it names the
/// Grant and attempt that were sent, the configured agent, and the nonce
/// expected for this connection.
pub fn check_grant_ack(
    ack: &GrantAckFields,
    grant_id: &str,
    attempt_id: &str,
    agent_device_id: &str,
    expected_nonce: &[u8],
) -> (r: Result<(), String>)
    ensures
        r is Ok <==> (ack.accepted && ack.grant_id@ == grant_id@ && ack.attempt_id@ == attempt_id@
            && ack.agent_device_id@ == agent_device_id@ && ack.nonce@ == expected_nonce@),
{
    if !ack.accepted {
        return Err(String::from_str("the agent answered the Grant with accepted=false"));
    }
    if !str_eq(ack.grant_id.as_str(), grant_id) {
        let mut e = String::from_str("grant_id correlation differs: sent ");
        push_str(&mut e, grant_id);
        push_str(&mut e, ", acknowledged ");
        push_str(&mut e, ack.grant_id.as_str());
        return Err(e);
    }
    if !str_eq(ack.attempt_id.as_str(), attempt_id) {
        let mut e = String::from_str("attempt_id correlation differs: sent ");
        push_str(&mut e, attempt_id);
        push_str(&mut e, ", acknowledged ");
        push_str(&mut e, ack.attempt_id.as_str());
        return Err(e);
    }
    if !str_eq(ack.agent_device_id.as_str(), agent_device_id) {
        let mut e = String::from_str("agent_device_id differs: expected ");
        push_str(&mut e, agent_device_id);
        push_str(&mut e, ", acknowledged ");
        push_str(&mut e, ack.agent_device_id.as_str());
        return Err(e);
    }
    if !bytes_eq(ack.nonce.as_slice(), expected_nonce) {
        return Err(String::from_str("ACK nonce does not match connection attempt"));
    }
    Ok(())
}

/// What a session does right after the acknowledgement.
#[derive(Debug, Clone, Copy, PartialEq, Eq, Structural)]
pub enum AfterAck {
    /// Drop this first connection once, so the agent reconnects; the lease
    /// is revoked first when asked.
    DropOnce { revoke_first: bool },
    /// End the session as acknowledged.
    Disconnect,
    /// The Grant was sent twice: wait briefly to see that nothing more
    /// comes, and never report success.
    ReplayProbe,
    /// Go on with the receiving stages.
    Continue,
}

pub open spec fn after_ack_step(c: CoordinatorConfig, connection_attempt: u32) -> AfterAck {
    if c.drop_connection_after_ack_once && c.max_connections > 1 && connection_attempt == 0 {
        AfterAck::DropOnce { revoke_first: c.revoke_before_drop }
    } else if c.disconnect_after_ack {
        AfterAck::Disconnect
    } else if c.send_grant_twice {
        AfterAck::ReplayProbe
    } else {
        AfterAck::Continue
    }
}

/// See `after_ack_step`: the test hooks, in the order they are honoured.
pub fn after_ack(c: &CoordinatorConfig, connection_attempt: u32) -> (r: AfterAck)
    ensures
        r == after_ack_step(*c, connection_attempt),
{
    if c.drop_connection_after_ack_once && c.max_connections > 1 && connection_attempt == 0 {
        AfterAck::DropOnce { revoke_first: c.revoke_before_drop }
    } else if c.disconnect_after_ack {
        AfterAck::Disconnect
    } else if c.send_grant_twice {
        AfterAck::ReplayProbe
    } else {
        AfterAck::Continue
    }
}

/// Why a heartbeat is refused, checked in order; `None` when it is taken.
pub open spec fn heartbeat_rejection(
    device_id: Seq<char>,
    coordinator_device_id: Seq<char>,
    fence_epoch: u64,
    expected_device_id: Seq<char>,
    expected_coordinator_id: Seq<char>,
    lease_fence_epoch: Option<u64>,
) -> Option<Seq<char>> {
    if device_id != expected_device_id {
        Some("HEARTBEAT_REJECTED: "@ + "device_id differs from this connection's agent"@)
    } else if coordinator_device_id != expected_coordinator_id {
        Some("HEARTBEAT_REJECTED: "@ + "coordinator_device_id names another coordinator"@)
    } else if lease_fence_epoch is None {
        Some("HEARTBEAT_REJECTED: "@ + "this connection's Grant has no lease to compare the generation with"@)
    } else if lease_fence_epoch != Some(fence_epoch) {
        Some("HEARTBEAT_REJECTED: "@ + "fence_epoch differs from the issued lease"@)
    } else {
        None
    }
}

/// A heartbeat is taken only from this connection's device, addressed to
/// this coordinator, for the generation of the lease this connection was
/// granted; a Grant without a lease cannot be compared and refuses every
/// heartbeat. Refusals start with `HEARTBEAT_REJECTED: `; nothing is stored
/// before all three comparisons pass.
pub fn check_heartbeat(
    device_id: &str,
    coordinator_device_id: &str,
    fence_epoch: u64,
    expected_device_id: &str,
    expected_coordinator_id: &str,
    lease_fence_epoch: Option<u64>,
) -> (r: Result<(), String>)
    ensures
        r is Ok <==> (device_id@ == expected_device_id@ && coordinator_device_id@ == expected_coordinator_id@
            && lease_fence_epoch == Some(fence_epoch)),
        r matches Err(m) ==> starts_with(m@, "HEARTBEAT_REJECTED: "@) && Some(m@) == heartbeat_rejection(
            device_id@,
            coordinator_device_id@,
            fence_epoch,
            expected_device_id@,
            expected_coordinator_id@,
            lease_fence_epoch,
        ),
{
    if !str_eq(device_id, expected_device_id) {
        return Err(refuse("HEARTBEAT_REJECTED: ", "device_id differs from this connection's agent"));
    }
    if !str_eq(coordinator_device_id, expected_coordinator_id) {
        return Err(refuse("HEARTBEAT_REJECTED: ", "coordinator_device_id names another coordinator"));
    }
    match lease_fence_epoch {
        None => Err(
            refuse("HEARTBEAT_REJECTED: ", "this connection's Grant has no lease to compare the generation with"),
        ),
        Some(e) => if e == fence_epoch {
            Ok(())
        } else {
            Err(refuse("HEARTBEAT_REJECTED: ", "fence_epoch differs from the issued lease"))
        },
    }
}

/// A neighbor report is taken only from this connection's device and
/// addressed to this coordinator. Refusals start with
/// `NEIGHBOR_REPORT_REJECTED: `.
pub fn check_neighbor_report(
    reporter_device_id: &str,
    coordinator_device_id: &str,
    expected_device_id: &str,
    expected_coordinator_id: &str,
) -> (r: Result<(), String>)
    ensures
        r is Ok <==> (reporter_device_id@ == expected_device_id@ && coordinator_device_id@
            == expected_coordinator_id@),
        r matches Err(m) ==> starts_with(m@, "NEIGHBOR_REPORT_REJECTED: "@) && m@ == "NEIGHBOR_REPORT_REJECTED: "@
            + if reporter_device_id@ != expected_device_id@ {
            "reporter_device_id differs from this connection's agent"@
        } else {
            "coordinator_device_id names another coordinator"@
        },
{
    if !str_eq(reporter_device_id, expected_device_id) {
        return Err(refuse("NEIGHBOR_REPORT_REJECTED: ", "reporter_device_id differs from this connection's agent"));
    }
    if !str_eq(coordinator_device_id, expected_coordinator_id) {
        return Err(refuse("NEIGHBOR_REPORT_REJECTED: ", "coordinator_device_id names another coordinator"));
    }
    Ok(())
}

/// The issued lease a report is compared with: its job and generation.
#[derive(Debug, Clone, PartialEq, Eq)]
pub struct IssuedLeaseRef {
    pub job_id: String,
    pub fence_epoch: u64,
}

/// Why an attempt report is refused, checked in order; `None` when it is
/// taken.
pub open spec fn attempt_report_rejection(
    report: AttemptReportFacts,
    agent_device_id: Seq<char>,
    grant_attempt_id: Seq<char>,
    lease: Option<IssuedLeaseRef>,
) -> Option<Seq<char>> {
    if report.node_id@ != agent_device_id {
        Some("ATTEMPT_REPORT_REJECTED: "@ + "node_id differs from this connection's agent"@)
    } else if report.attempt_id@ != grant_attempt_id {
        Some("ATTEMPT_REPORT_REJECTED: "@ + "attempt_id differs from this connection's Grant"@)
    } else if lease is None {
        Some("ATTEMPT_REPORT_REJECTED: "@ + "this connection's Grant has no lease to compare job and generation with"@)
    } else if report.job_id@ != lease->0.job_id@ {
        Some("ATTEMPT_REPORT_REJECTED: "@ + "job_id differs from the issued lease"@)
    } else if report.fence_epoch != lease->0.fence_epoch {
        Some("ATTEMPT_REPORT_REJECTED: "@ + "fence_epoch differs from the issued lease"@)
    } else if !terminal_outcome(report.outcome_kind) {
        Some("ATTEMPT_REPORT_REJECTED: "@
            + "the outcome is not terminal; a report of an attempt that has not ended is not stored as evidence"@)
    } else {
        None
    }
}

/// An attempt report is stored only if it comes from this connection's
/// agent, names the attempt of this connection's Grant and the job and
/// generation of its lease, and reports a known terminal outcome. Refusals
/// start with `ATTEMPT_REPORT_REJECTED: `.
pub fn check_attempt_report(
    report: &AttemptReportFacts,
    agent_device_id: &str,
    grant_attempt_id: &str,
    lease: &Option<IssuedLeaseRef>,
) -> (r: Result<(), String>)
    ensures
        r is Ok <==> (report.node_id@ == agent_device_id@ && report.attempt_id@ == grant_attempt_id@
            && lease is Some && report.job_id@ == lease->0.job_id@ && report.fence_epoch == lease->0.fence_epoch
            && terminal_outcome(report.outcome_kind)),
        r matches Err(m) ==> starts_with(m@, "ATTEMPT_REPORT_REJECTED: "@) && Some(m@) == attempt_report_rejection(
            *report,
            agent_device_id@,
            grant_attempt_id@,
            *lease,
        ),
{
    if !str_eq(report.node_id.as_str(), agent_device_id) {
        return Err(refuse("ATTEMPT_REPORT_REJECTED: ", "node_id differs from this connection's agent"));
    }
    if !str_eq(report.attempt_id.as_str(), grant_attempt_id) {
        return Err(refuse("ATTEMPT_REPORT_REJECTED: ", "attempt_id differs from this connection's Grant"));
    }
    let l = match lease {
        Some(l) => l,
        None => {
            return Err(
                refuse(
                    "ATTEMPT_REPORT_REJECTED: ",
                    "this connection's Grant has no lease to compare job and generation with",
                ),
            );
        },
    };
    if !str_eq(report.job_id.as_str(), l.job_id.as_str()) {
        return Err(refuse("ATTEMPT_REPORT_REJECTED: ", "job_id differs from the issued lease"));
    }
    if report.fence_epoch != l.fence_epoch {
        return Err(refuse("ATTEMPT_REPORT_REJECTED: ", "fence_epoch differs from the issued lease"));
    }
    if !is_terminal_outcome(report.outcome_kind) {
        return Err(
            refuse(
                "ATTEMPT_REPORT_REJECTED: ",
                "the outcome is not terminal; a report of an attempt that has not ended is not stored as evidence",
            ),
        );
    }
    Ok(())
}

/// The attempt-report store failures that the incoming report caused; they
/// refuse this report only. Every other failure is the store's own and stops
/// the coordinator.
pub open spec fn report_caused(e: AttemptReportStoreError) -> bool {
    e is InvalidInput || e is InvalidOutcome || e is ReportRule || e is AttemptNotFound || e is ReservationNotFound
        || e is BindingMismatch || e is ReportConflict
}

/// See `report_caused`.
pub fn attempt_report_failure_is_the_reports(e: &AttemptReportStoreError) -> (r: bool)
    ensures
        r == report_caused(*e),
{
    match e {
        AttemptReportStoreError::InvalidInput(_)
        | AttemptReportStoreError::InvalidOutcome(_)
        | AttemptReportStoreError::ReportRule(_)
        | AttemptReportStoreError::AttemptNotFound { .. }
        | AttemptReportStoreError::ReservationNotFound { .. }
        | AttemptReportStoreError::BindingMismatch(_)
        | AttemptReportStoreError::ReportConflict { .. } => true,
        _ => false,
    }
}

/// What a session does about renewal once the Grant was acknowledged and
/// the receiving stages are done.
#[derive(Debug, Clone, Copy, PartialEq, Eq, Structural)]
pub enum RenewalStart {
    /// Revoke the lease right after the Grant; no renewal is read.
    RevokeAfterGrant,
    /// Read up to `rounds` renewal requests, after pausing `delay_ms`.
    Renew { rounds: u32, delay_ms: u64 },
    /// Read none.
    NoRenewal,
}

/// A revocation "after round 0" comes right after the Grant; otherwise
/// renewals are read when asked for.
pub fn renewal_start(c: &CoordinatorConfig) -> (r: RenewalStart)
    ensures
        r == (if c.revoke_after_round == Some(0u32) {
            RenewalStart::RevokeAfterGrant
        } else if c.do_renew {
            RenewalStart::Renew { rounds: c.renew_rounds, delay_ms: c.renew_delay_ms }
        } else {
            RenewalStart::NoRenewal
        }),
{
    if c.revoke_after_round == Some(0u32) {
        RenewalStart::RevokeAfterGrant
    } else if c.do_renew {
        RenewalStart::Renew { rounds: c.renew_rounds, delay_ms: c.renew_delay_ms }
    } else {
        RenewalStart::NoRenewal
    }
}

/// The fencing epoch a renewal within the session must carry: the stored
/// one with a lease store (`None` for an unknown lease), the configured one
/// without.
pub open spec fn session_expected_epoch(store: Option<LeaseMap>, lease_id: Seq<char>, configured: u64) -> Option<u64> {
    match store {
        None => Some(configured),
        Some(m) => if m.contains_key(lease_id) {
            Some(m[lease_id].fence_epoch)
        } else {
            None
        },
    }
}

pub open spec fn store_view(store: Option<CoordinatorLeaseStore>) -> Option<LeaseMap> {
    match store {
        None => None,
        Some(s) => Some(s@),
    }
}

/// How a renewal request within the session is answered.
#[derive(Debug, Clone, Copy, PartialEq, Eq, Structural)]
pub enum SessionRenewStep {
    /// Renew (see `plan_renewal`).
    Proceed,
    /// A lower epoch than the stored one: answered as superseded.
    Superseded,
}

/// A renewal within the session must come from the configured agent and
/// name the configured lease. Its epoch must be the expected one (see
/// `session_expected_epoch`); a lower one is answered as superseded when a
/// lease store holds the higher epoch, and any other difference is refused.
pub fn session_renew_step(
    store: &Option<CoordinatorLeaseStore>,
    node_id: &str,
    lease_id: &str,
    fence_epoch: u64,
    c: &CoordinatorConfig,
) -> (r: Result<SessionRenewStep, String>)
    requires
        *store matches Some(s) ==> s.wf(),
    ensures
        node_id@ != c.agent_device_id@ ==> r is Err,
        node_id@ == c.agent_device_id@ && lease_id@ != c.lease_id@ ==> r is Err,
        node_id@ == c.agent_device_id@ && lease_id@ == c.lease_id@ ==> match session_expected_epoch(
            store_view(*store),
            lease_id@,
            c.fence_epoch,
        ) {
            None => r is Err,
            Some(e) => if fence_epoch == e {
                r == Ok::<SessionRenewStep, String>(SessionRenewStep::Proceed)
            } else if fence_epoch < e && store is Some {
                r == Ok::<SessionRenewStep, String>(SessionRenewStep::Superseded)
            } else {
                r is Err
            },
        },
{
    if !str_eq(node_id, c.agent_device_id.as_str()) {
        let mut e = String::from_str("RenewLeaseRequest.node_id differs: expected ");
        push_str(&mut e, c.agent_device_id.as_str());
        return Err(e);
    }
    if !str_eq(lease_id, c.lease_id.as_str()) {
        let mut e = String::from_str("RenewLeaseRequest.lease_id differs: expected ");
        push_str(&mut e, c.lease_id.as_str());
        return Err(e);
    }
    let expected = match store {
        None => c.fence_epoch,
        Some(s) => match s.get(lease_id) {
            Ok(Some(stored)) => stored.fence_epoch,
            _ => {
                let mut e = String::from_str("RenewLeaseRequest.lease_id (");
                push_str(&mut e, lease_id);
                push_str(&mut e, ") is not in the lease store");
                return Err(e);
            },
        },
    };
    if fence_epoch == expected {
        return Ok(SessionRenewStep::Proceed);
    }
    if fence_epoch < expected && store.is_some() {
        return Ok(SessionRenewStep::Superseded);
    }
    let mut e = String::from_str("RenewLeaseRequest.fence_epoch differs: expected ");
    push_decimal(&mut e, expected);
    push_str(&mut e, ", got ");
    push_decimal(&mut e, fence_epoch);
    Err(e)
}

/// What follows a renewal round within the session.
#[derive(Debug, Clone, Copy, PartialEq, Eq, Structural)]
pub enum RoundNext {
    /// Read the next renewal request.
    Next,
    /// End the renewals.
    Stop,
    /// Revoke the lease, then end the renewals.
    RevokeThenStop,
}

/// A renewal outcome that ends the lease (superseded, expired, limit
/// exceeded, revoked).
pub open spec fn final_renew_outcome(outcome: i32) -> bool {
    outcome == 2 || outcome == 3 || outcome == 6 || outcome == 8
}

/// After an answered round (counted from 0): a final outcome ends the
/// renewals; otherwise a revocation asked for after this round is made.
pub fn after_renew_round(outcome: i32, revoke_after_round: Option<u32>, round: u32) -> (r: RoundNext)
    ensures
        r == (if final_renew_outcome(outcome) {
            RoundNext::Stop
        } else if revoke_after_round matches Some(k) && k == round + 1 {
            RoundNext::RevokeThenStop
        } else {
            RoundNext::Next
        }),
{
    if outcome == 2 || outcome == 3 || outcome == 6 || outcome == 8 {
        return RoundNext::Stop;
    }
    match revoke_after_round {
        Some(k) => if round < u32::MAX && k == round + 1 {
            RoundNext::RevokeThenStop
        } else {
            RoundNext::Next
        },
        None => RoundNext::Next,
    }
}

/// What happens to an answered renewal before its answer is sent.
#[derive(Debug, Clone, Copy, PartialEq, Eq, Structural)]
pub enum CommitHook {
    /// Send the answer.
    Answer,
    /// Drop the connection once, after the renewal was stored and before
    /// the answer is sent (revoking first when asked), so the agent has to
    /// recover the committed renewal.
    Drop { revoke_first: bool },
}

/// The drop-after-commit test hook applies to the first connection only and
/// needs a renewed lease and a lease store that holds the commit.
pub fn renew_commit_hook(
    c: &CoordinatorConfig,
    connection_attempt: u32,
    renewed: bool,
    durable: bool,
) -> (r: Result<CommitHook, String>)
    ensures
        !(c.drop_after_renew_commit_before_result_once && connection_attempt == 0) ==> r == Ok::<
            CommitHook,
            String,
        >(CommitHook::Answer),
        c.drop_after_renew_commit_before_result_once && connection_attempt == 0 ==> if renewed && durable {
            r == Ok::<CommitHook, String>(CommitHook::Drop { revoke_first: c.revoke_before_drop })
        } else {
            r is Err
        },
{
    if !(c.drop_after_renew_commit_before_result_once && connection_attempt == 0) {
        return Ok(CommitHook::Answer);
    }
    if !renewed {
        return Err(String::from_str("drop-after-renew-commit hook requires a RENEWED result with Lease"));
    }
    if !durable {
        return Err(String::from_str("drop-after-renew-commit hook requires durable --lease-db"));
    }
    Ok(CommitHook::Drop { revoke_first: c.revoke_before_drop })
}

/// A renewal answer before it is signed.
#[derive(Debug, Clone, PartialEq, Eq)]
pub struct RenewAnswer {
    pub outcome: i32,
    pub detail: String,
    /// The renewed lease, to sign and carry.
    pub lease: Option<StoredLease>,
}

/// The outcome, detail and lease of the answer to a renewal plan: an
/// override as given, the lifetime limit (6), a revocation (8) with its
/// time, and a renewed lease (1).
pub open spec fn renew_answer_of(plan: RenewPlan) -> (i32, Seq<char>, Option<StoredLease>) {
    match plan {
        RenewPlan::PolicyOverride(o) => (o, "policy override"@, None),
        RenewPlan::MaxDurationExceeded => (6, "max total duration exceeded"@, None),
        RenewPlan::Revoked { revoked_at_unix_ms } => (
            8,
            "lease revoked at unix ms: "@ + decimal(revoked_at_unix_ms as nat),
            None,
        ),
        RenewPlan::Renewed(l) => (1, "ok"@, Some(l)),
    }
}

/// See `renew_answer_of`.
pub fn renew_answer(plan: RenewPlan) -> (r: RenewAnswer)
    ensures
        (r.outcome, r.detail@, r.lease) == renew_answer_of(plan),
{
    match plan {
        RenewPlan::PolicyOverride(o) => RenewAnswer {
            outcome: o,
            detail: String::from_str("policy override"),
            lease: None,
        },
        RenewPlan::MaxDurationExceeded => RenewAnswer {
            outcome: 6,
            detail: String::from_str("max total duration exceeded"),
            lease: None,
        },
        RenewPlan::Revoked { revoked_at_unix_ms } => {
            let mut d = String::from_str("lease revoked at unix ms: ");
            push_decimal(&mut d, revoked_at_unix_ms);
            RenewAnswer { outcome: 8, detail: d, lease: None }
        },
        RenewPlan::Renewed(l) => RenewAnswer { outcome: 1, detail: String::from_str("ok"), lease: Some(l) },
    }
}

/// The answer to a renewal whose epoch is below the stored one (2).
pub fn superseded_renew_answer() -> (r: RenewAnswer)
    ensures
        r.outcome == 2,
        r.detail@ == "a higher fence epoch already exists"@,
        r.lease is None,
{
    RenewAnswer { outcome: 2, detail: String::from_str("a higher fence epoch already exists"), lease: None }
}

/// The request nonce an answer echoes; the corruption test hook inverts
/// every byte so the agent must refuse the answer.
pub fn answered_nonce(nonce: &Vec<u8>, corrupt: bool) -> (r: Vec<u8>)
    ensures
        r@.len() == nonce@.len(),
        forall|i: int| 0 <= i < nonce@.len() ==> #[trigger] r@[i] == if corrupt {
            nonce@[i] ^ 0xffu8
        } else {
            nonce@[i]
        },
{
    let mut r: Vec<u8> = Vec::new();
    let mut i: usize = 0;
    while i < nonce.len()
        invariant
            i <= nonce@.len(),
            r@.len() == i,
            forall|k: int| 0 <= k < i ==> #[trigger] r@[k] == if corrupt {
                nonce@[k] ^ 0xffu8
            } else {
                nonce@[k]
            },
        decreases nonce@.len() - i,
    {
        let b = nonce[i];
        r.push(if corrupt { b ^ 0xffu8 } else { b });
        i = i + 1;
    }
    r
}

/// How a renewal session (one renewal on its own connection) goes on.
#[derive(Debug, Clone, Copy, PartialEq, Eq, Structural)]
pub enum RenewSessionStep {
    /// A lower epoch than the stored one: answered as superseded.
    Superseded,
    /// Renew (see `plan_renewal`).
    Renew,
}

/// A renewal session is judged by the stored lease alone, so it needs a
/// lease store. The request must come from the configured agent, name a
/// stored lease that this agent holds, and carry the stored epoch or a lower
/// one (answered as superseded); an unrevoked lease must not have expired.
/// Every refusal is a protocol failure of this session only.
pub fn renew_session_step(
    store: &Option<CoordinatorLeaseStore>,
    node_id: &str,
    lease_id: &str,
    fence_epoch: u64,
    agent_device_id: &str,
    now_unix_ms: u64,
) -> (r: Result<RenewSessionStep, CoordinatorSessionError>)
    requires
        *store matches Some(s) ==> s.wf(),
    ensures
        r matches Err(e) ==> e is Protocol,
        *store is None ==> (r matches Err(CoordinatorSessionError::Protocol(m)) && starts_with(
            m@,
            "RENEW_SESSION_REFUSED: "@,
        )),
        *store matches Some(s) ==> {
            let m = s@;
            if node_id@ != agent_device_id@ || !m.contains_key(lease_id@) || m[lease_id@].holder_node_id@
                != node_id@ {
                r is Err
            } else if fence_epoch < m[lease_id@].fence_epoch {
                r == Ok::<RenewSessionStep, CoordinatorSessionError>(RenewSessionStep::Superseded)
            } else if fence_epoch > m[lease_id@].fence_epoch {
                r is Err
            } else if m[lease_id@].revoked_at_unix_ms is None && m[lease_id@].expires_at_unix_ms <= now_unix_ms {
                r is Err
            } else {
                r == Ok::<RenewSessionStep, CoordinatorSessionError>(RenewSessionStep::Renew)
            }
        },
{
    let s = match store {
        None => {
            return Err(
                CoordinatorSessionError::Protocol(
                    refuse(
                        "RENEW_SESSION_REFUSED: ",
                        "no renewal session without --lease-db; a renewal outside the connection is judged by the stored lease only",
                    ),
                ),
            );
        },
        Some(s) => s,
    };
    if !str_eq(node_id, agent_device_id) {
        let mut e = String::from_str("RENEW_SESSION: node_id differs: expected ");
        push_str(&mut e, agent_device_id);
        return Err(CoordinatorSessionError::Protocol(e));
    }
    let stored = match s.get(lease_id) {
        Ok(Some(l)) => l,
        _ => {
            return Err(
                CoordinatorSessionError::Protocol(
                    String::from_str("RENEW_SESSION: not a stored lease (unknown lease_id)"),
                ),
            );
        },
    };
    if !str_eq(stored.holder_node_id.as_str(), node_id) {
        return Err(
            CoordinatorSessionError::Protocol(String::from_str("RENEW_SESSION: not the holder of this lease")),
        );
    }
    if fence_epoch < stored.fence_epoch {
        return Ok(RenewSessionStep::Superseded);
    }
    if fence_epoch > stored.fence_epoch {
        let mut e = String::from_str("RENEW_SESSION: fence_epoch is above the stored ");
        push_decimal(&mut e, stored.fence_epoch);
        return Err(CoordinatorSessionError::Protocol(e));
    }
    if stored.revoked_at_unix_ms.is_none() && stored.expires_at_unix_ms <= now_unix_ms {
        return Err(CoordinatorSessionError::Protocol(String::from_str("RENEW_SESSION: the lease has already expired")));
    }
    Ok(RenewSessionStep::Renew)
}

/// A Resume Hello must name the resume mode, come from the configured
/// agent, carry this connection's number, and name a session.
pub fn check_resume_hello(
    mode: i32,
    node_id: &str,
    hello_connection_attempt: u32,
    session_id: &str,
    modes: HelloModes,
    agent_device_id: &str,
    connection_attempt: u32,
) -> (r: Result<(), String>)
    ensures
        r is Ok <==> (mode == modes.resume && node_id@ == agent_device_id@ && hello_connection_attempt
            == connection_attempt && session_id@.len() > 0),
{
    if mode != modes.resume {
        return Err(String::from_str("AgentSessionHello.mode must be RESUME"));
    }
    if !str_eq(node_id, agent_device_id) {
        let mut e = String::from_str("AgentSessionHello.node_id differs: expected ");
        push_str(&mut e, agent_device_id);
        return Err(e);
    }
    if hello_connection_attempt != connection_attempt {
        return Err(String::from_str("AgentSessionHello.connection_attempt differs from this connection's number"));
    }
    if session_id.unicode_len() == 0 {
        return Err(String::from_str("AgentSessionHello.session_id is empty"));
    }
    Ok(())
}

/// A Resume request must name the node, session and connection number of
/// its Hello.
pub fn resume_request_matches_hello(
    request_node_id: &str,
    request_session_id: &str,
    request_connection_attempt: u32,
    hello_node_id: &str,
    hello_session_id: &str,
    hello_connection_attempt: u32,
) -> (r: bool)
    ensures
        r == (request_node_id@ == hello_node_id@ && request_session_id@ == hello_session_id@
            && request_connection_attempt == hello_connection_attempt),
{
    str_eq(request_node_id, hello_node_id) && str_eq(request_session_id, hello_session_id)
        && request_connection_attempt == hello_connection_attempt
}

/// Classifies a Resume against the lease store; Resume needs one, and its
/// absence, like any store failure, is a storage failure.
pub fn classify_resume_request(
    store: &Option<CoordinatorLeaseStore>,
    request: &ResumeRequestIdentity,
    now_unix_ms: u64,
) -> (r: Result<ResumeDecision, CoordinatorSessionError>)
    requires
        *store matches Some(s) ==> s.wf(),
    ensures
        *store is None ==> (r matches Err(e) && e is Storage),
        *store matches Some(s) ==> r == Ok::<ResumeDecision, CoordinatorSessionError>(
            crate::lease_store::resume_decision(
                if s@.contains_key(request.lease_id@) {
                    Some(s@[request.lease_id@])
                } else {
                    None
                },
                *request,
                now_unix_ms,
            ),
        ),
{
    match store {
        None => Err(
            classify_resume_store_error(LeaseStoreError::Io(String::from_str("resume requires a durable lease store"))),
        ),
        Some(s) => match s.classify_resume(request, now_unix_ms) {
            Ok(d) => Ok(d),
            Err(e) => Err(classify_resume_store_error(e)),
        },
    }
}

/// A Resume answer before it is signed.
#[derive(Debug, Clone, PartialEq, Eq)]
pub struct ResumeAnswer {
    pub outcome: i32,
    pub detail: String,
    /// The resumed lease, to sign and carry; its expiry is not extended.
    pub lease: Option<StoredLease>,
}

/// `Some(n)` or `None`, as a revocation time is written in a detail.
pub open spec fn optional_time_text(t: Option<u64>) -> Seq<char> {
    match t {
        Some(n) => "Some("@ + decimal(n as nat) + ")"@,
        None => "None"@,
    }
}

/// The outcome and detail of the answer to each Resume classification:
/// resumed (1), revoked (2), expired (3), superseded (4), unknown lease (5),
/// identity conflict (6), epoch ahead (8).
pub open spec fn resume_answer_of(d: ResumeDecision) -> (i32, Seq<char>, Option<StoredLease>) {
    match d {
        ResumeDecision::Resumed(l) => (1, "resume accepted; lease expiry was not extended"@, Some(l)),
        ResumeDecision::UnknownLease => (5, "lease_id is not present in the durable store"@, None),
        ResumeDecision::IdentityConflict { field, stored, requested } => (
            6,
            "identity conflict in "@ + field@ + ": stored="@ + stored@ + " requested="@ + requested@,
            None,
        ),
        ResumeDecision::Revoked { stored } => (
            2,
            "lease revoked at "@ + optional_time_text(stored.revoked_at_unix_ms),
            None,
        ),
        ResumeDecision::Expired { stored } => (
            3,
            "lease expired at "@ + decimal(stored.expires_at_unix_ms as nat),
            None,
        ),
        ResumeDecision::Superseded { stored } => (
            4,
            "request epoch is below stored epoch "@ + decimal(stored.fence_epoch as nat),
            None,
        ),
        ResumeDecision::EpochAhead { stored } => (
            8,
            "request epoch is above stored epoch "@ + decimal(stored.fence_epoch as nat),
            None,
        ),
    }
}

/// See `resume_answer_of`.
pub fn resume_answer(d: ResumeDecision) -> (r: ResumeAnswer)
    ensures
        (r.outcome, r.detail@, r.lease) == resume_answer_of(d),
{
    match d {
        ResumeDecision::Resumed(l) => ResumeAnswer {
            outcome: 1,
            detail: String::from_str("resume accepted; lease expiry was not extended"),
            lease: Some(l),
        },
        ResumeDecision::UnknownLease => ResumeAnswer {
            outcome: 5,
            detail: String::from_str("lease_id is not present in the durable store"),
            lease: None,
        },
        ResumeDecision::IdentityConflict { field, stored, requested } => {
            let mut t = String::from_str("identity conflict in ");
            push_str(&mut t, field);
            push_str(&mut t, ": stored=");
            push_str(&mut t, stored.as_str());
            push_str(&mut t, " requested=");
            push_str(&mut t, requested.as_str());
            ResumeAnswer { outcome: 6, detail: t, lease: None }
        },
        ResumeDecision::Revoked { stored } => {
            let mut t = String::from_str("lease revoked at ");
            match stored.revoked_at_unix_ms {
                Some(n) => {
                    push_str(&mut t, "Some(");
                    push_decimal(&mut t, n);
                    push_str(&mut t, ")");
                },
                None => push_str(&mut t, "None"),
            }
            ResumeAnswer { outcome: 2, detail: t, lease: None }
        },
        ResumeDecision::Expired { stored } => {
            let mut t = String::from_str("lease expired at ");
            push_decimal(&mut t, stored.expires_at_unix_ms);
            ResumeAnswer { outcome: 3, detail: t, lease: None }
        },
        ResumeDecision::Superseded { stored } => {
            let mut t = String::from_str("request epoch is below stored epoch ");
            push_decimal(&mut t, stored.fence_epoch);
            ResumeAnswer { outcome: 4, detail: t, lease: None }
        },
        ResumeDecision::EpochAhead { stored } => {
            let mut t = String::from_str("request epoch is above stored epoch ");
            push_decimal(&mut t, stored.fence_epoch);
            ResumeAnswer { outcome: 8, detail: t, lease: None }
        },
    }
}

/// The fields of a lease on the wire, before it is signed.
#[derive(Debug, Clone, PartialEq, Eq)]
pub struct LeaseFields {
    pub schema_version: u32,
    pub lease_id: String,
    pub job_id: String,
    pub attempt_id: String,
    pub fence_epoch: u64,
    pub coordinator_term: u64,
    pub holder_node_id: String,
    /// The members of the lease: its holder alone.
    pub member_node_ids: Vec<String>,
    pub issuing_coordinator_id: String,
    pub issued_at_unix_ms: u64,
    pub expires_at_unix_ms: u64,
    pub renew_after_unix_ms: u64,
    pub max_total_duration_seconds: u32,
}

/// The wire form of a stored lease (schema 1, its holder as sole member); a
/// lifetime limit above `u32::MAX` is refused rather than truncated.
pub fn unsigned_lease_from_stored(stored: &StoredLease) -> (r: Result<LeaseFields, String>)
    ensures
        stored.max_total_duration_seconds > u32::MAX <==> r is Err,
        r matches Ok(f) ==> {
            &&& f.schema_version == 1
            &&& f.lease_id == stored.lease_id
            &&& f.job_id == stored.job_id
            &&& f.attempt_id == stored.attempt_id
            &&& f.fence_epoch == stored.fence_epoch
            &&& f.coordinator_term == stored.coordinator_term
            &&& f.holder_node_id == stored.holder_node_id
            &&& f.member_node_ids@ == seq![stored.holder_node_id]
            &&& f.issuing_coordinator_id == stored.issuing_coordinator_id
            &&& f.issued_at_unix_ms == stored.issued_at_unix_ms
            &&& f.expires_at_unix_ms == stored.expires_at_unix_ms
            &&& f.renew_after_unix_ms == stored.renew_after_unix_ms
            &&& f.max_total_duration_seconds == stored.max_total_duration_seconds
        },
{
    let max_total_duration_seconds = u32_from_stored(stored.max_total_duration_seconds, "max_total_duration_seconds")?;
    let mut members: Vec<String> = Vec::new();
    members.push(copy_string(&stored.holder_node_id));
    Ok(
        LeaseFields {
            schema_version: 1,
            lease_id: copy_string(&stored.lease_id),
            job_id: copy_string(&stored.job_id),
            attempt_id: copy_string(&stored.attempt_id),
            fence_epoch: stored.fence_epoch,
            coordinator_term: stored.coordinator_term,
            holder_node_id: copy_string(&stored.holder_node_id),
            member_node_ids: members,
            issuing_coordinator_id: copy_string(&stored.issuing_coordinator_id),
            issued_at_unix_ms: stored.issued_at_unix_ms,
            expires_at_unix_ms: stored.expires_at_unix_ms,
            renew_after_unix_ms: stored.renew_after_unix_ms,
            max_total_duration_seconds,
        },
    )
}

/// The lease a fresh session offers: the configured identities, epoch and
/// lifetime limit, issued now, renew-after in 30 seconds, and expiring after
/// the configured time-to-live, or a millisecond ago when the expired-lease
/// test hook is on.
pub open spec fn lease_candidate_of(c: CoordinatorConfig, now: u64) -> StoredLease {
    StoredLease {
        lease_id: c.lease_id,
        job_id: c.job_id,
        attempt_id: c.attempt_id,
        holder_node_id: c.agent_device_id,
        fence_epoch: c.fence_epoch,
        expires_at_unix_ms: if c.expire_lease {
            if now > 0 {
                (now - 1) as u64
            } else {
                0
            }
        } else {
            (now + c.lease_ttl_ms) as u64
        },
        issuing_coordinator_id: c.coordinator_device_id,
        coordinator_term: 1,
        issued_at_unix_ms: now,
        renew_after_unix_ms: (now + 30_000) as u64,
        max_total_duration_seconds: c.max_total_duration_seconds,
        revoked_at_unix_ms: None,
    }
}

/// The lease a fresh session grants. Without a lease store it is the
/// candidate itself; with one, the store issues it once and afterwards
/// returns the stored lease (see `get_or_issue_step`), refusing a conflict,
/// a revoked or an expired lease.
pub fn issue_session_lease(
    c: &CoordinatorConfig,
    store: &mut Option<CoordinatorLeaseStore>,
    now_unix_ms: u64,
) -> (r: Result<StoredLease, String>)
    requires
        *old(store) matches Some(s) ==> s.wf(),
        !c.expire_lease ==> now_unix_ms + c.lease_ttl_ms <= u64::MAX,
        now_unix_ms + 30_000 <= u64::MAX,
    ensures
        match *old(store) {
            None => *final(store) is None && r == Ok::<StoredLease, String>(lease_candidate_of(*c, now_unix_ms)),
            Some(s) => {
                let (m, out) = get_or_issue_step(s@, lease_candidate_of(*c, now_unix_ms), now_unix_ms);
                &&& *final(store) matches Some(t) && t.wf() && t@ == m
                &&& match out {
                    Ok(l) => r == Ok::<StoredLease, String>(l),
                    Err(_) => r is Err,
                }
            },
        },
{
    let expires_at = if c.expire_lease {
        if now_unix_ms > 0 {
            now_unix_ms - 1
        } else {
            0
        }
    } else {
        now_unix_ms + c.lease_ttl_ms
    };
    let candidate = StoredLease {
        lease_id: copy_string(&c.lease_id),
        job_id: copy_string(&c.job_id),
        attempt_id: copy_string(&c.attempt_id),
        holder_node_id: copy_string(&c.agent_device_id),
        fence_epoch: c.fence_epoch,
        expires_at_unix_ms: expires_at,
        issuing_coordinator_id: copy_string(&c.coordinator_device_id),
        coordinator_term: 1,
        issued_at_unix_ms: now_unix_ms,
        renew_after_unix_ms: now_unix_ms + 30_000,
        max_total_duration_seconds: c.max_total_duration_seconds,
        revoked_at_unix_ms: None,
    };
    let taken = store.take();
    match taken {
        None => Ok(candidate),
        Some(mut s) => {
            let out = s.get_or_issue(&candidate, now_unix_ms);
            *store = Some(s);
            match out {
                Ok(l) => Ok(l),
                Err(e) => {
                    let mut m = String::from_str("first lease issue in the lease store failed: ");
                    push_str(&mut m, e.message().as_str());
                    Err(m)
                },
            }
        },
    }
}

/// The fields of a Grant built from the configuration, before its lease,
/// manifest, nonce and signature are added.
#[derive(Debug, Clone, PartialEq, Eq)]
pub struct GrantFields {
    pub schema_version: u32,
    pub grant_id: String,
    pub attempt_id: String,
    pub coordinator_device_id: String,
    pub coordinator_term: u64,
    pub issued_at_unix_ms: u64,
    pub expires_at_unix_ms: u64,
    /// The lease was issued through the durable store.
    pub lease_from_durable_store: bool,
}

/// A configured Grant: schema 2, term 1, valid for a minute from now.
pub fn grant_fields(c: &CoordinatorConfig, now_unix_ms: u64, durable: bool) -> (r: GrantFields)
    requires
        now_unix_ms + 60_000 <= u64::MAX,
    ensures
        r.schema_version == 2,
        r.grant_id == c.grant_id,
        r.attempt_id == c.attempt_id,
        r.coordinator_device_id == c.coordinator_device_id,
        r.coordinator_term == 1,
        r.issued_at_unix_ms == now_unix_ms,
        r.expires_at_unix_ms == now_unix_ms + 60_000,
        r.lease_from_durable_store == durable,
{
    GrantFields {
        schema_version: 2,
        grant_id: copy_string(&c.grant_id),
        attempt_id: copy_string(&c.attempt_id),
        coordinator_device_id: copy_string(&c.coordinator_device_id),
        coordinator_term: 1,
        issued_at_unix_ms: now_unix_ms,
        expires_at_unix_ms: now_unix_ms + 60_000,
        lease_from_durable_store: durable,
    }
}

/// The stored-reservation request of a session: the stored identities, the
/// configured Grant id, issued now and valid for the configured time (at
/// most until the end of time), with the connection's nonce.
pub fn stored_grant_request(c: &CoordinatorConfig, now_unix_ms: u64, nonce: Vec<u8>) -> (r: StoredGrantRequest)
    ensures
        r.job_id == c.stored_grant_job_id,
        r.attempt_id == c.stored_grant_attempt_id,
        r.lease_id == c.stored_grant_lease_id,
        r.grant_id == c.grant_id,
        r.issued_at_unix_ms == now_unix_ms,
        r.expires_at_unix_ms == (if now_unix_ms + c.stored_grant_ttl_ms <= u64::MAX {
            now_unix_ms + c.stored_grant_ttl_ms
        } else {
            u64::MAX as int
        }),
        r.nonce == nonce,
{
    StoredGrantRequest {
        job_id: copy_string(&c.stored_grant_job_id),
        attempt_id: copy_string(&c.stored_grant_attempt_id),
        lease_id: copy_string(&c.stored_grant_lease_id),
        grant_id: copy_string(&c.grant_id),
        issued_at_unix_ms: now_unix_ms,
        expires_at_unix_ms: now_unix_ms.saturating_add(c.stored_grant_ttl_ms),
        nonce,
    }
}

/// The manifest-hash test hook: flips the lowest bit of the first byte of a
/// digest, so the agent must refuse the Grant.
pub fn corrupt_first_byte(digest: &mut Vec<u8>)
    requires
        old(digest)@.len() > 0,
    ensures
        final(digest)@ == old(digest)@.update(0, old(digest)@[0] ^ 1u8),
{
    let b = digest[0] ^ 1u8;
    digest.set(0, b);
}

} // verus!
