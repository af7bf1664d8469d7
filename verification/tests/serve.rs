use coordinator::session::validate_device_id;
use coordinator::attempt_report_store::{AttemptOutcome, AttemptReportFacts, AttemptReportStoreError, ExitObservation};
use coordinator::config::{parse_config_from_args, CoordinatorConfig};
use coordinator::lease_store::{CoordinatorLeaseStore, ResumeDecision, ResumeRequestIdentity, StoredLease};
use coordinator::serve::{
    after_ack, after_renew_round, after_session, answered_nonce, attempt_report_failure_is_the_reports,
    before_accept, bytes_eq, check_attempt_report, check_grant_ack, check_heartbeat, check_lanes,
    check_neighbor_report, check_resume_hello, check_startup, classify_resume_request, corrupt_first_byte,
    grant_fields, issue_session_lease, renew_answer, renew_commit_hook, renew_session_step, renewal_start,
    resume_answer, resume_request_matches_hello, route_hello, session_renew_step, stored_grant_request,
    superseded_renew_answer, unsigned_lease_from_stored, AfterAck, CommitHook, GrantAckFields, HelloModes,
    HelloRoute, IssuedLeaseRef, LoopStep, RenewSessionStep, RenewalStart, RoundNext, SessionRenewStep,
    StartupRoute,
};
use coordinator::session::{CoordinatorSessionError, RenewPlan};

const MODES: HelloModes = HelloModes { grant: 3, renew: 2, resume: 4 };
const AGENT: &str = "01JAGENTSERVE00000000001";
const COORD: &str = "01JCOORDSERVE00000000001";

fn config(extra: &[&str]) -> CoordinatorConfig {
    let own_seed = "11".repeat(32);
    let peer = "22".repeat(32);
    let mut args: Vec<String> = [
        "--listen", "127.0.0.1:0",
        "--own-seed", own_seed.as_str(),
        "--peer-pubkey", peer.as_str(),
        "--coordinator-device-id", COORD,
        "--agent-device-id", AGENT,
        "--grant-id", "grant-1",
        "--attempt-id", "attempt-1",
        "--lease-id", "lease-1",
        "--job-id", "job-1",
    ]
    .iter()
    .map(|s| s.to_string())
    .collect();
    args.extend(extra.iter().map(|s| s.to_string()));
    parse_config_from_args(&args).expect("configuration")
}

fn stored(lease_id: &str, epoch: u64, expires: u64) -> StoredLease {
    StoredLease {
        lease_id: lease_id.to_string(),
        job_id: "job-1".into(),
        attempt_id: "attempt-1".into(),
        holder_node_id: AGENT.into(),
        fence_epoch: epoch,
        expires_at_unix_ms: expires,
        issuing_coordinator_id: COORD.into(),
        coordinator_term: 1,
        issued_at_unix_ms: 500,
        renew_after_unix_ms: 800,
        max_total_duration_seconds: 3600,
        revoked_at_unix_ms: None,
    }
}

fn store_with(lease: StoredLease) -> CoordinatorLeaseStore {
    let mut store = CoordinatorLeaseStore::new();
    store.get_or_issue(&lease, 0).expect("issued");
    store
}

#[test]
fn startup_refuses_bad_identifiers_and_unprotected_legacy_mode() {
    let mut bad = config(&["--lease-db", "l.sqlite3"]);
    bad.agent_device_id = "a/b".into();
    assert!(check_startup(&bad).unwrap_err().starts_with("DEVICE_ID_REJECTED: "));
    // the agent's id is checked first, and the refusal is the validator's own
    bad.coordinator_device_id = "".into();
    assert_eq!(check_startup(&bad), Err(validate_device_id("a/b").unwrap_err()));
    bad.agent_device_id = "agent-1".into();
    assert_eq!(check_startup(&bad), Err("DEVICE_ID_REJECTED: empty".to_string()));
    let legacy = config(&[]);
    assert!(check_startup(&legacy).unwrap_err().starts_with("LEGACY_MODE_REFUSED: "));
    let allowed = config(&["--i-understand-legacy-mode-is-unsafe", "true"]);
    assert_eq!(check_startup(&allowed), Ok(StartupRoute::Sequential));
    let durable = config(&["--lease-db", "l.sqlite3"]);
    assert_eq!(check_startup(&durable), Ok(StartupRoute::Sequential));
    let multi = config(&["--multi-agent", "true"]);
    assert_eq!(check_startup(&multi), Ok(StartupRoute::MultiAgent));
}

#[test]
fn startup_lane_checks_refuse_in_order() {
    assert_eq!(check_lanes(&config(&["--lease-db", "l.sqlite3"])), Ok(()));
    let resume_heartbeats = config(&["--expect-heartbeats", "1", "--resume-protocol", "true"]);
    assert_eq!(
        check_lanes(&resume_heartbeats).unwrap_err(),
        "the resume path returns before it receives heartbeats"
    );
    let manifest_and_db = config(&[
        "--grant-from-control-db", "c.sqlite3", "--resume-protocol", "true", "--manifest-file", "m.pb",
    ]);
    assert!(check_lanes(&manifest_and_db).unwrap_err().starts_with("STARTUP_REFUSED: MANIFEST_WITH_CONTROL_DB"));
    let resume_and_db = config(&["--grant-from-control-db", "c.sqlite3", "--resume-protocol", "true"]);
    assert!(check_lanes(&resume_and_db).unwrap_err().starts_with("STARTUP_REFUSED: RESUME_WITH_CONTROL_DB"));
    let reports_without_db = config(&["--expect-neighbor-reports", "1"]);
    assert!(check_lanes(&reports_without_db)
        .unwrap_err()
        .starts_with("STARTUP_REFUSED: NEIGHBOR_REPORT_DB_MISSING"));
}

#[test]
fn the_accept_loop_counts_connections_and_stops_on_storage_failures() {
    assert_eq!(before_accept(0, 2, 500), Ok(0));
    assert_eq!(before_accept(1, 2, 500), Ok(500));
    assert!(before_accept(2, 2, 500).is_err());
    assert_eq!(after_session(&Ok(()), 1, 2), LoopStep::Next);
    assert_eq!(after_session(&Ok(()), 2, 2), LoopStep::Finish);
    let protocol = Err(CoordinatorSessionError::Protocol("bad frame".into()));
    assert_eq!(after_session(&protocol, 1, 2), LoopStep::Next);
    assert_eq!(after_session(&protocol, 2, 2), LoopStep::Stop("protocol: bad frame".into()));
    let storage = Err(CoordinatorSessionError::Storage("disk".into()));
    assert_eq!(after_session(&storage, 1, 5), LoopStep::Stop("storage: disk".into()));
}

#[test]
fn hellos_are_routed_by_mode_and_checked() {
    assert_eq!(route_hello(AGENT, 3, 0, MODES, AGENT, 0), Ok(HelloRoute::Fresh));
    assert_eq!(route_hello(AGENT, 2, 7, MODES, AGENT, 0), Ok(HelloRoute::Renew));
    assert!(route_hello(AGENT, 3, 1, MODES, AGENT, 0).unwrap_err().starts_with("HELLO_REJECTED: "));
    assert_eq!(
        route_hello(AGENT, 3, 1, MODES, AGENT, 0).unwrap_err(),
        "HELLO_REJECTED: connection_attempt differs: expected 0, received 1"
    );
    assert_eq!(
        route_hello(AGENT, -4, 0, MODES, AGENT, 0).unwrap_err(),
        "HELLO_REJECTED: mode differs: the sequential lane takes only Grant (3) and renewal (2) Hellos, received -4"
    );
    assert!(route_hello(AGENT, 4, 0, MODES, AGENT, 0).unwrap_err().starts_with("HELLO_REJECTED: "));
    assert!(route_hello("other", 3, 0, MODES, AGENT, 0).unwrap_err().starts_with("HELLO_REJECTED: "));
}

#[test]
fn an_acknowledgement_must_correlate_with_the_grant() {
    let ack = GrantAckFields {
        accepted: true,
        grant_id: "grant-1".into(),
        attempt_id: "attempt-1".into(),
        agent_device_id: AGENT.into(),
        nonce: vec![1, 2, 3],
    };
    assert_eq!(check_grant_ack(&ack, "grant-1", "attempt-1", AGENT, &[1, 2, 3]), Ok(()));
    assert!(check_grant_ack(&ack, "grant-1", "attempt-1", AGENT, &[1, 2, 4]).is_err());
    assert!(check_grant_ack(&ack, "grant-2", "attempt-1", AGENT, &[1, 2, 3]).is_err());
    assert!(check_grant_ack(&ack, "grant-1", "attempt-2", AGENT, &[1, 2, 3]).is_err());
    assert!(check_grant_ack(&ack, "grant-1", "attempt-1", "other", &[1, 2, 3]).is_err());
    let refused = GrantAckFields { accepted: false, ..ack };
    assert!(check_grant_ack(&refused, "grant-1", "attempt-1", AGENT, &[1, 2, 3]).is_err());
    assert!(bytes_eq(&[], &[]));
    assert!(!bytes_eq(&[1], &[1, 1]));
}

#[test]
fn test_hooks_after_the_acknowledgement_are_honoured_in_order() {
    let drop_once = config(&[
        "--drop-connection-after-ack-once", "true", "--max-connections", "2", "--revoke-before-drop", "true",
        "--disconnect-after-ack", "true",
    ]);
    assert_eq!(after_ack(&drop_once, 0), AfterAck::DropOnce { revoke_first: true });
    assert_eq!(after_ack(&drop_once, 1), AfterAck::Disconnect);
    let single = config(&["--drop-connection-after-ack-once", "true"]);
    assert_eq!(after_ack(&single, 0), AfterAck::Continue);
    assert_eq!(after_ack(&config(&["--send-grant-twice", "true"]), 0), AfterAck::ReplayProbe);
    assert_eq!(after_ack(&config(&[]), 0), AfterAck::Continue);
}

#[test]
fn heartbeats_and_neighbor_reports_must_come_from_this_session() {
    assert_eq!(check_heartbeat(AGENT, COORD, 7, AGENT, COORD, Some(7)), Ok(()));
    for refused in [
        check_heartbeat("other", COORD, 7, AGENT, COORD, Some(7)),
        check_heartbeat(AGENT, "other", 7, AGENT, COORD, Some(7)),
        check_heartbeat(AGENT, COORD, 6, AGENT, COORD, Some(7)),
        check_heartbeat(AGENT, COORD, 7, AGENT, COORD, None),
    ] {
        assert!(refused.unwrap_err().starts_with("HEARTBEAT_REJECTED: "));
    }
    assert_eq!(check_neighbor_report(AGENT, COORD, AGENT, COORD), Ok(()));
    assert!(check_neighbor_report("other", COORD, AGENT, COORD)
        .unwrap_err()
        .starts_with("NEIGHBOR_REPORT_REJECTED: "));
    assert!(check_neighbor_report(AGENT, "other", AGENT, COORD)
        .unwrap_err()
        .starts_with("NEIGHBOR_REPORT_REJECTED: "));
}

fn report(outcome: Option<AttemptOutcome>) -> AttemptReportFacts {
    AttemptReportFacts {
        job_id: "job-1".into(),
        attempt_id: "attempt-1".into(),
        node_id: AGENT.into(),
        fence_epoch: 7,
        outcome: 1,
        outcome_kind: outcome,
        exit_observation: Some(ExitObservation::ObservedWithCode),
    }
}

#[test]
fn attempt_reports_must_match_the_grant_and_lease_and_be_terminal() {
    let lease = Some(IssuedLeaseRef { job_id: "job-1".into(), fence_epoch: 7 });
    assert_eq!(check_attempt_report(&report(Some(AttemptOutcome::Completed)), AGENT, "attempt-1", &lease), Ok(()));
    let rejected = |r: Result<(), String>| assert!(r.unwrap_err().starts_with("ATTEMPT_REPORT_REJECTED: "));
    rejected(check_attempt_report(&report(Some(AttemptOutcome::Unspecified)), AGENT, "attempt-1", &lease));
    rejected(check_attempt_report(&report(None), AGENT, "attempt-1", &lease));
    rejected(check_attempt_report(&report(Some(AttemptOutcome::Failed)), "other", "attempt-1", &lease));
    rejected(check_attempt_report(&report(Some(AttemptOutcome::Failed)), AGENT, "attempt-2", &lease));
    rejected(check_attempt_report(&report(Some(AttemptOutcome::Failed)), AGENT, "attempt-1", &None));
    let other_job = Some(IssuedLeaseRef { job_id: "job-2".into(), fence_epoch: 7 });
    rejected(check_attempt_report(&report(Some(AttemptOutcome::Failed)), AGENT, "attempt-1", &other_job));
    let other_epoch = Some(IssuedLeaseRef { job_id: "job-1".into(), fence_epoch: 8 });
    rejected(check_attempt_report(&report(Some(AttemptOutcome::Failed)), AGENT, "attempt-1", &other_epoch));
}

#[test]
fn only_failures_caused_by_the_report_spare_the_coordinator() {
    assert!(attempt_report_failure_is_the_reports(&AttemptReportStoreError::InvalidOutcome(9)));
    assert!(attempt_report_failure_is_the_reports(&AttemptReportStoreError::ReportConflict {
        attempt_id: "a".into(),
        node_id: "n".into(),
    }));
    assert!(!attempt_report_failure_is_the_reports(&AttemptReportStoreError::Io("disk".into())));
    assert!(!attempt_report_failure_is_the_reports(&AttemptReportStoreError::LockTimeout));
}

#[test]
fn renewals_within_the_session_check_identity_and_epoch() {
    let c = config(&["--fence-epoch", "4"]);
    assert_eq!(session_renew_step(&None, AGENT, "lease-1", 4, &c), Ok(SessionRenewStep::Proceed));
    assert!(session_renew_step(&None, AGENT, "lease-1", 3, &c).is_err(), "no store holds a higher epoch");
    assert!(session_renew_step(&None, "other", "lease-1", 4, &c).is_err());
    assert!(session_renew_step(&None, AGENT, "lease-2", 4, &c).is_err());
    let store = Some(store_with(stored("lease-1", 9, 10_000)));
    assert_eq!(session_renew_step(&store, AGENT, "lease-1", 9, &c), Ok(SessionRenewStep::Proceed));
    assert_eq!(session_renew_step(&store, AGENT, "lease-1", 8, &c), Ok(SessionRenewStep::Superseded));
    assert!(session_renew_step(&store, AGENT, "lease-1", 10, &c).is_err());
    let empty = Some(CoordinatorLeaseStore::new());
    assert!(session_renew_step(&empty, AGENT, "lease-1", 4, &c).is_err());
}

#[test]
fn renewal_rounds_end_on_final_outcomes_and_asked_revocations() {
    assert_eq!(renewal_start(&config(&["--revoke-after-round", "0", "--do-renew", "true"])), RenewalStart::RevokeAfterGrant);
    assert_eq!(
        renewal_start(&config(&["--do-renew", "true", "--renew-rounds", "3", "--renew-delay-ms", "5"])),
        RenewalStart::Renew { rounds: 3, delay_ms: 5 }
    );
    assert_eq!(renewal_start(&config(&[])), RenewalStart::NoRenewal);
    for outcome in [2, 3, 6, 8] {
        assert_eq!(after_renew_round(outcome, Some(1), 0), RoundNext::Stop);
    }
    assert_eq!(after_renew_round(1, Some(1), 0), RoundNext::RevokeThenStop);
    assert_eq!(after_renew_round(1, Some(2), 0), RoundNext::Next);
    assert_eq!(after_renew_round(1, None, 0), RoundNext::Next);
    assert_eq!(after_renew_round(1, Some(0), u32::MAX), RoundNext::Next);
}

#[test]
fn the_drop_after_commit_hook_needs_a_durable_renewal() {
    let hook = config(&["--drop-after-renew-commit-before-result-once", "true", "--revoke-before-drop", "true"]);
    assert_eq!(renew_commit_hook(&hook, 0, true, true), Ok(CommitHook::Drop { revoke_first: true }));
    assert_eq!(renew_commit_hook(&hook, 1, true, true), Ok(CommitHook::Answer));
    assert!(renew_commit_hook(&hook, 0, false, true).is_err());
    assert!(renew_commit_hook(&hook, 0, true, false).is_err());
    assert_eq!(renew_commit_hook(&config(&[]), 0, false, false), Ok(CommitHook::Answer));
}

#[test]
fn renewal_answers_carry_their_outcome_codes() {
    let a = renew_answer(RenewPlan::Revoked { revoked_at_unix_ms: 1234 });
    assert_eq!((a.outcome, a.detail.as_str()), (8, "lease revoked at unix ms: 1234"));
    let a = renew_answer(RenewPlan::MaxDurationExceeded);
    assert_eq!((a.outcome, a.detail.as_str()), (6, "max total duration exceeded"));
    let a = renew_answer(RenewPlan::PolicyOverride(3));
    assert_eq!((a.outcome, a.detail.as_str(), a.lease), (3, "policy override", None));
    let l = stored("lease-1", 1, 2_000);
    let a = renew_answer(RenewPlan::Renewed(l.clone()));
    assert_eq!((a.outcome, a.detail.as_str(), a.lease), (1, "ok", Some(l)));
    let a = superseded_renew_answer();
    assert_eq!((a.outcome, a.detail.as_str()), (2, "a higher fence epoch already exists"));
    assert_eq!(answered_nonce(&vec![0x00, 0x0f], true), vec![0xff, 0xf0]);
    assert_eq!(answered_nonce(&vec![0x00, 0x0f], false), vec![0x00, 0x0f]);
}

#[test]
fn a_renewal_session_is_judged_by_the_stored_lease() {
    let refused = renew_session_step(&None, AGENT, "lease-1", 1, AGENT, 100);
    assert!(matches!(refused, Err(CoordinatorSessionError::Protocol(m)) if m.starts_with("RENEW_SESSION_REFUSED: ")));
    let store = Some(store_with(stored("lease-1", 5, 1_000)));
    assert_eq!(renew_session_step(&store, AGENT, "lease-1", 5, AGENT, 100), Ok(RenewSessionStep::Renew));
    assert_eq!(renew_session_step(&store, AGENT, "lease-1", 4, AGENT, 100), Ok(RenewSessionStep::Superseded));
    assert!(renew_session_step(&store, AGENT, "lease-1", 6, AGENT, 100).is_err());
    assert!(renew_session_step(&store, AGENT, "lease-1", 5, AGENT, 1_000).is_err(), "expired");
    assert!(renew_session_step(&store, AGENT, "lease-2", 5, AGENT, 100).is_err());
    assert!(renew_session_step(&store, "other", "lease-1", 5, "other", 100).is_err(), "not the holder");
    assert!(renew_session_step(&store, "other", "lease-1", 5, AGENT, 100).is_err());
}

#[test]
fn resume_hellos_requests_and_answers() {
    assert_eq!(check_resume_hello(4, AGENT, 2, "s-1", MODES, AGENT, 2), Ok(()));
    assert!(check_resume_hello(3, AGENT, 2, "s-1", MODES, AGENT, 2).is_err());
    assert!(check_resume_hello(4, "other", 2, "s-1", MODES, AGENT, 2).is_err());
    assert!(check_resume_hello(4, AGENT, 1, "s-1", MODES, AGENT, 2).is_err());
    assert!(check_resume_hello(4, AGENT, 2, "", MODES, AGENT, 2).is_err());
    assert!(resume_request_matches_hello(AGENT, "s-1", 2, AGENT, "s-1", 2));
    assert!(!resume_request_matches_hello(AGENT, "s-2", 2, AGENT, "s-1", 2));
    let request = ResumeRequestIdentity {
        lease_id: "lease-1".into(),
        node_id: AGENT.into(),
        job_id: "job-1".into(),
        attempt_id: "attempt-1".into(),
        fence_epoch: 5,
    };
    assert!(matches!(classify_resume_request(&None, &request, 100), Err(CoordinatorSessionError::Storage(_))));
    let store = Some(store_with(stored("lease-1", 5, 1_000)));
    let decision = classify_resume_request(&store, &request, 100).expect("classified");
    let answer = resume_answer(decision);
    assert_eq!(answer.outcome, 1);
    assert_eq!(answer.detail, "resume accepted; lease expiry was not extended");
    assert_eq!(answer.lease.map(|l| l.expires_at_unix_ms), Some(1_000));
    let mut revoked = stored("lease-1", 5, 1_000);
    revoked.revoked_at_unix_ms = Some(77);
    let a = resume_answer(ResumeDecision::Revoked { stored: revoked });
    assert_eq!((a.outcome, a.detail.as_str()), (2, "lease revoked at Some(77)"));
    let a = resume_answer(ResumeDecision::UnknownLease);
    assert_eq!((a.outcome, a.detail.as_str()), (5, "lease_id is not present in the durable store"));
    let a = resume_answer(ResumeDecision::IdentityConflict { field: "job_id", stored: "j1".into(), requested: "j2".into() });
    assert_eq!((a.outcome, a.detail.as_str()), (6, "identity conflict in job_id: stored=j1 requested=j2"));
    let a = resume_answer(ResumeDecision::Expired { stored: stored("lease-1", 5, 1_000) });
    assert_eq!((a.outcome, a.detail.as_str()), (3, "lease expired at 1000"));
    let a = resume_answer(ResumeDecision::Superseded { stored: stored("lease-1", 5, 1_000) });
    assert_eq!((a.outcome, a.detail.as_str()), (4, "request epoch is below stored epoch 5"));
    let a = resume_answer(ResumeDecision::EpochAhead { stored: stored("lease-1", 5, 1_000) });
    assert_eq!((a.outcome, a.detail.as_str()), (8, "request epoch is above stored epoch 5"));
}

#[test]
fn a_stored_lease_goes_on_the_wire_with_its_holder_as_sole_member() {
    let l = stored("lease-1", 5, 1_000);
    let f = unsigned_lease_from_stored(&l).expect("fits");
    assert_eq!(f.schema_version, 1);
    assert_eq!(f.member_node_ids, vec![AGENT.to_string()]);
    assert_eq!(f.max_total_duration_seconds, 3600);
    assert_eq!((f.fence_epoch, f.expires_at_unix_ms, f.renew_after_unix_ms), (5, 1_000, 800));
    let mut big = l;
    big.max_total_duration_seconds = u64::from(u32::MAX) + 1;
    assert!(unsigned_lease_from_stored(&big).is_err());
}

#[test]
fn a_fresh_session_lease_is_issued_once_through_the_store() {
    let c = config(&["--lease-ttl-ms", "5000", "--fence-epoch", "2"]);
    let mut none: Option<CoordinatorLeaseStore> = None;
    let l = issue_session_lease(&c, &mut none, 1_000).expect("candidate");
    assert_eq!((l.expires_at_unix_ms, l.renew_after_unix_ms, l.fence_epoch), (6_000, 31_000, 2));
    assert_eq!(l.holder_node_id, AGENT);
    let expired = config(&["--expire-lease", "true"]);
    assert_eq!(issue_session_lease(&expired, &mut none, 1_000).unwrap().expires_at_unix_ms, 999);
    assert_eq!(issue_session_lease(&expired, &mut none, 0).unwrap().expires_at_unix_ms, 0);
    let mut store = Some(CoordinatorLeaseStore::new());
    let first = issue_session_lease(&c, &mut store, 1_000).expect("issued");
    let again = issue_session_lease(&c, &mut store, 2_000).expect("stored value");
    assert_eq!(again, first, "the stored lease wins over a new candidate");
    assert!(issue_session_lease(&c, &mut store, 6_000).is_err(), "expired at 6000");
}

#[test]
fn grant_fields_and_stored_requests() {
    let mut c = config(&[]);
    c.stored_grant_ttl_ms = 100;
    let g = grant_fields(&c, 1_000, true);
    assert_eq!((g.schema_version, g.coordinator_term, g.expires_at_unix_ms), (2, 1, 61_000));
    assert_eq!(g.grant_id, "grant-1");
    assert!(g.lease_from_durable_store);
    let r = stored_grant_request(&c, u64::MAX - 10, vec![9]);
    assert_eq!(r.expires_at_unix_ms, u64::MAX);
    assert_eq!(r.nonce, vec![9]);
    let r = stored_grant_request(&c, 1_000, vec![]);
    assert_eq!(r.expires_at_unix_ms, 1_100);
    let mut digest = vec![0x10, 0x20];
    corrupt_first_byte(&mut digest);
    assert_eq!(digest, vec![0x11, 0x20]);
}
