use coordinator::session::{classify_legacy_session_error, framing_failure, settle_session_error, SessionHandlerError};
use coordinator::session::{
    classify_resume_store_error, post_ack_first_read_wait, session_error_kind, u32_from_stored,
    unsupported_attempt_report_lane, unsupported_heartbeat_lane, unsupported_neighbor_report_lane,
    validate_device_id, CoordinatorSessionError, SessionLane, SessionOptions, IO_TIMEOUT_MS,
    MAX_DEVICE_ID_LEN,
};
use coordinator::lease_store::{CoordinatorLeaseStore, LeaseStoreError, StoredLease};
use coordinator::config::{parse_config_from_args, CoordinatorConfig};
use coordinator::session::{lane_from_config, corrupt_signature, plan_renewal, revoke_notice_fields, LegacyRenewal, RenewPlan};

#[test]
fn u32_from_stored_accepts_max_total_duration_seconds_default() {
    assert_eq!(u32_from_stored(86_400, "max_total_duration_seconds"), Ok(86_400));
}

#[test]
fn u32_from_stored_accepts_u32_max() {
    assert_eq!(u32_from_stored(u64::from(u32::MAX), "x"), Ok(u32::MAX));
}

#[test]
fn u32_from_stored_rejects_values_above_u32_max_instead_of_truncating() {
    let result = u32_from_stored(u64::from(u32::MAX) + 1, "x");
    assert!(result.is_err(), "a value above u32::MAX must be refused, not truncated: {result:?}");
}

#[test]
fn the_forbidden_shapes_are_actually_refused() {
    let cases: &[(&str, &str)] = &[
        ("", "empty"),
        ("a;b", "extra-agents entry separator"),
        ("a=b", "extra-agents key separator"),
        ("a\nb", "line break splits a log line"),
        ("a b", "space"),
        ("a/b", "path separator"),
        ("../escape", "path escape"),
        ("노드", "non-ASCII"),
        ("a\0b", "NUL"),
    ];
    for (value, why) in cases {
        assert!(validate_device_id(value).is_err(), "{value:?} passed: {why}");
    }
    let too_long = "a".repeat(MAX_DEVICE_ID_LEN + 1);
    assert!(validate_device_id(&too_long).is_err(), "over the limit and still accepted");
}

#[test]
fn ordinary_identifiers_pass() {
    for value in [
        "01JAGENTSELFTEST00000000001",
        "node-1",
        "node_1",
        "node.1",
        &"a".repeat(MAX_DEVICE_ID_LEN),
    ] {
        assert!(validate_device_id(value).is_ok(), "{value:?} was refused");
    }
}

#[test]
fn device_id_refusals_carry_the_machine_prefix() {
    for value in ["", "a;b", &"a".repeat(MAX_DEVICE_ID_LEN + 1)] {
        let refused = validate_device_id(value).unwrap_err();
        assert!(refused.starts_with("DEVICE_ID_REJECTED: "), "{refused}");
    }
    assert_eq!(validate_device_id("").unwrap_err(), "DEVICE_ID_REJECTED: empty");
    assert_eq!(
        validate_device_id("a;b").unwrap_err(),
        "DEVICE_ID_REJECTED: ';' cannot be used (a;b); only ASCII letters, digits, '-', '_' and '.' are allowed"
    );
    assert_eq!(
        validate_device_id(&"a".repeat(65)).unwrap_err(),
        "DEVICE_ID_REJECTED: 65 bytes, more than the limit of 64; the value is copied into four identifiers"
    );
}

#[test]
fn without_a_manifest_the_first_read_is_not_extended() {
    assert_eq!(post_ack_first_read_wait(false, Some(50_000), 1_000), Ok(None));
}

#[test]
fn the_first_read_waits_for_the_remaining_lease() {
    assert_eq!(post_ack_first_read_wait(true, Some(21_000), 1_000), Ok(Some(20_000)));
}

#[test]
fn the_first_read_never_waits_less_than_the_io_timeout() {
    assert_eq!(post_ack_first_read_wait(true, Some(6_000), 1_000), Ok(Some(IO_TIMEOUT_MS)));
}

#[test]
fn an_expired_lease_is_refused_instead_of_waited_for() {
    let refused = post_ack_first_read_wait(true, Some(1_000), 1_000).expect_err("expired");
    assert!(refused.contains("POST_ACK_WAIT_REFUSED"), "{refused}");
}

#[test]
fn a_manifest_without_a_lease_is_refused() {
    assert!(post_ack_first_read_wait(true, None, 1_000).is_err());
}

fn options() -> SessionOptions {
    SessionOptions {
        expect_neighbor_reports: 0,
        expect_heartbeats: 0,
        expect_attempt_reports: 0,
        liveness_db_configured: false,
        grant_from_control_db_configured: false,
        resume_protocol: false,
        send_grant_twice: false,
        disconnect_after_ack: false,
        drop_connection_after_ack_once: false,
    }
}

#[test]
fn heartbeats_on_an_unreachable_lane_are_refused() {
    let resume = legacy_renew_config(&["--expect-heartbeats", "1", "--resume-protocol", "true"]);
    let message = unsupported_heartbeat_lane(&resume.session_options(), lane_from_config(resume.multi_agent))
        .expect("resume must be refused");
    assert!(message.contains("resume"), "{message}");
    for flag in ["--send-grant-twice", "--disconnect-after-ack", "--drop-connection-after-ack-once"] {
        let config = legacy_renew_config(&["--expect-heartbeats", "1", flag, "true"]);
        let message = unsupported_heartbeat_lane(&config.session_options(), lane_from_config(config.multi_agent))
            .unwrap_or_else(|| panic!("{flag} must be refused"));
        assert!(message.contains(flag), "{message}");
    }
    let plain = legacy_renew_config(&["--expect-heartbeats", "1"]);
    let message = unsupported_heartbeat_lane(&plain.session_options(), SessionLane::MultiAgent)
        .expect("multi-agent must be refused");
    assert!(message.contains("multi-agent"), "{message}");
}

#[test]
fn the_heartbeat_guard_stays_out_of_reachable_or_unexpecting_sessions() {
    let plain = legacy_renew_config(&["--expect-heartbeats", "1"]);
    assert_eq!(unsupported_heartbeat_lane(&plain.session_options(), lane_from_config(plain.multi_agent)), None);
    let not_expecting = legacy_renew_config(&["--resume-protocol", "true"]);
    assert_eq!(
        unsupported_heartbeat_lane(&not_expecting.session_options(), lane_from_config(not_expecting.multi_agent)),
        None
    );
}

#[test]
fn a_liveness_path_without_expected_heartbeats_is_refused_by_the_common_guard() {
    let mut config = legacy_renew_config(&[]);
    config.liveness_db_path = Some("live.sqlite3".into());
    let message = unsupported_heartbeat_lane(&config.session_options(), lane_from_config(config.multi_agent))
        .expect("must be refused");
    assert!(message.contains("--liveness-db"), "{message}");
    config.expect_heartbeats = 1;
    assert_eq!(unsupported_heartbeat_lane(&config.session_options(), lane_from_config(config.multi_agent)), None);
}

#[test]
fn attempt_reports_need_a_control_database() {
    let mut o = options();
    o.expect_attempt_reports = 1;
    let refused = unsupported_attempt_report_lane(&o, SessionLane::Sequential).unwrap();
    assert!(refused.starts_with("--grant-from-control-db"), "{refused}");
    o.grant_from_control_db_configured = true;
    assert_eq!(unsupported_attempt_report_lane(&o, SessionLane::Sequential), None);
    o.send_grant_twice = true;
    assert!(unsupported_attempt_report_lane(&o, SessionLane::Sequential).is_some());
}

#[test]
fn neighbor_reports_are_refused_where_they_cannot_arrive() {
    let mut o = options();
    o.expect_neighbor_reports = 3;
    assert!(unsupported_neighbor_report_lane(&o, SessionLane::MultiAgent).is_some());
    assert_eq!(unsupported_neighbor_report_lane(&o, SessionLane::Sequential), None);
    o.drop_connection_after_ack_once = true;
    assert!(unsupported_neighbor_report_lane(&o, SessionLane::Sequential).is_some());
}

#[test]
fn resume_store_errors_are_storage_failures() {
    let io = classify_resume_store_error(LeaseStoreError::Io("disk".to_string()));
    assert_eq!(
        io,
        CoordinatorSessionError::Storage("resume lease classification: lease store I/O error: disk".to_string())
    );
    let odd = classify_resume_store_error(LeaseStoreError::NotFound);
    assert!(matches!(&odd, CoordinatorSessionError::Storage(m) if m.starts_with("unexpected resume lease-store error")));
    assert_eq!(session_error_kind(&odd), "storage");
    assert_eq!(odd.message(), "storage: unexpected resume lease-store error: lease_id is not in the store");
}

#[test]
fn revoke_notice_uses_issued_lease_identity_and_epoch() {
    let notice = revoke_notice_fields("lease-a", 7, None, None, 123);
    assert_eq!(notice.lease_id, "lease-a");
    assert_eq!(notice.fence_epoch, 7);
    assert_eq!(notice.issued_at_unix_ms, 123);
    assert_eq!(notice.schema_version, 1);
}

#[test]
fn revoke_notice_test_overrides_are_signed_payload_values() {
    let notice = revoke_notice_fields("lease-a", 7, Some("lease-b"), Some(6), 456);
    assert_eq!(notice.lease_id, "lease-b");
    assert_eq!(notice.fence_epoch, 6);
    assert_eq!(notice.issued_at_unix_ms, 456);
}

#[test]
fn a_corrupted_signature_differs_only_in_its_last_bit() {
    let mut signature = vec![0xAA, 0x10];
    assert_eq!(corrupt_signature(&mut signature), Ok(()));
    assert_eq!(signature, vec![0xAA, 0x11]);
    let mut empty: Vec<u8> = vec![];
    assert!(corrupt_signature(&mut empty).is_err());
    assert!(empty.is_empty());
}

fn legacy() -> LegacyRenewal {
    LegacyRenewal {
        lease_id: "01JLEASERENEWEXT00000001".into(),
        job_id: "01JJOBRENEWEXT0000000001".into(),
        attempt_id: "01JATTEMPTRENEWEXT000001".into(),
        agent_device_id: "01JAGENTRENEWEXT00000001".into(),
        coordinator_device_id: "01JCOORDRENEWEXT00000001".into(),
        renewed_fence_epoch: 1,
        max_total_duration_seconds: 3600,
    }
}

/// The settings of a renewal without a store, read from the command line as
/// the coordinator reads them.
fn legacy_renew_config(extra: &[&str]) -> CoordinatorConfig {
    let own_seed = "11".repeat(32);
    let peer = "09".repeat(32);
    let mut args: Vec<String> = [
        "--listen", "127.0.0.1:0",
        "--own-seed", own_seed.as_str(),
        "--peer-pubkey", peer.as_str(),
        "--coordinator-device-id", "01JCOORDRENEWEXT00000001",
        "--agent-device-id", "01JAGENTRENEWEXT00000001",
        "--grant-id", "01JGRANTRENEWEXT00000001",
        "--attempt-id", "01JATTEMPTRENEWEXT000001",
        "--lease-id", "01JLEASERENEWEXT00000001",
        "--job-id", "01JJOBRENEWEXT0000000001",
        "--i-understand-legacy-mode-is-unsafe", "true",
    ]
    .iter()
    .map(|s| s.to_string())
    .collect();
    args.extend(extra.iter().map(|s| s.to_string()));
    parse_config_from_args(&args).expect("configuration")
}

#[test]
fn the_renew_extension_is_applied_without_a_lease_store() {
    let config = legacy_renew_config(&["--renew-extension-ms", "1000"]);
    let now = 1_800_000_000_000;
    let mut store: Option<CoordinatorLeaseStore> = None;
    let plan = plan_renewal(&mut store, None, now, &config.lease_id, config.renew_extension_ms, &config.legacy_renewal())
        .expect("renewal");
    match plan {
        RenewPlan::Renewed(lease) => {
            assert_eq!(lease.expires_at_unix_ms, now + 1_000, "the expiry does not follow the extension");
            assert_eq!(lease.renew_after_unix_ms, now + 500, "renew-after is not half the extension");
        }
        other => panic!("not renewed: {other:?}"),
    }
}

#[test]
fn the_default_renew_extension_is_still_sixty_seconds_without_a_lease_store() {
    let config = legacy_renew_config(&[]);
    let now = 1_800_000_000_000;
    let mut store: Option<CoordinatorLeaseStore> = None;
    let plan = plan_renewal(&mut store, None, now, &config.lease_id, config.renew_extension_ms, &config.legacy_renewal())
        .expect("renewal");
    match plan {
        RenewPlan::Renewed(lease) => {
            assert_eq!(lease.expires_at_unix_ms, now + 60_000);
            assert_eq!(lease.renew_after_unix_ms, now + 30_000);
        }
        other => panic!("not renewed: {other:?}"),
    }
}

#[test]
fn a_renewal_with_a_store_keeps_the_stored_epoch_and_answers_revocation() {
    let mut lease_store = CoordinatorLeaseStore::new();
    let stored = StoredLease {
        lease_id: "lease-1".into(),
        job_id: "job-1".into(),
        attempt_id: "attempt-1".into(),
        holder_node_id: "agent-1".into(),
        fence_epoch: 5,
        expires_at_unix_ms: 10_000,
        issuing_coordinator_id: "coord-1".into(),
        coordinator_term: 1,
        issued_at_unix_ms: 500,
        renew_after_unix_ms: 800,
        max_total_duration_seconds: 3600,
        revoked_at_unix_ms: None,
    };
    lease_store.get_or_issue(&stored, 0).unwrap();
    let mut store = Some(lease_store);
    match plan_renewal(&mut store, None, 1_000, "lease-1", 2_000, &legacy()).unwrap() {
        RenewPlan::Renewed(lease) => {
            assert_eq!(lease.fence_epoch, 5);
            assert_eq!(lease.expires_at_unix_ms, 3_000);
        }
        other => panic!("not renewed: {other:?}"),
    }
    store.as_mut().unwrap().mark_revoked("lease-1", 1_500).unwrap();
    assert_eq!(
        plan_renewal(&mut store, None, 1_600, "lease-1", 2_000, &legacy()),
        Ok(RenewPlan::Revoked { revoked_at_unix_ms: 1_500 })
    );
    assert!(plan_renewal(&mut store, None, 1_600, "missing", 2_000, &legacy()).is_err());
}

#[test]
fn an_override_renewal_never_adds_the_extension() {
    let mut lease_store = CoordinatorLeaseStore::new();
    let stored = StoredLease {
        lease_id: "lease-1".into(),
        job_id: "job-1".into(),
        attempt_id: "attempt-1".into(),
        holder_node_id: "agent-1".into(),
        fence_epoch: 5,
        expires_at_unix_ms: u64::MAX,
        issuing_coordinator_id: "coord-1".into(),
        coordinator_term: 1,
        issued_at_unix_ms: 500,
        renew_after_unix_ms: 800,
        max_total_duration_seconds: 3600,
        revoked_at_unix_ms: None,
    };
    lease_store.get_or_issue(&stored, 0).unwrap();
    let mut store = Some(lease_store);
    // far past the duration limit, with an extension that would overflow
    assert_eq!(
        plan_renewal(&mut store, Some(3), u64::MAX - 1, "lease-1", u64::MAX, &legacy()),
        Ok(RenewPlan::MaxDurationExceeded)
    );
    assert_eq!(store.as_ref().unwrap().get("lease-1"), Ok(Some(stored)));
    let mut none: Option<CoordinatorLeaseStore> = None;
    assert_eq!(
        plan_renewal(&mut none, Some(4), u64::MAX, "lease-1", u64::MAX, &legacy()),
        Ok(RenewPlan::PolicyOverride(4))
    );
}

#[test]
fn bare_session_messages_are_classified_by_their_text() {
    let storage = classify_legacy_session_error("the renewal names lease_id x, which is not in the lease store".into(), false);
    assert_eq!(
        storage,
        CoordinatorSessionError::Storage(
            "session lease operation: the renewal names lease_id x, which is not in the lease store".into()
        )
    );
    let wire = classify_legacy_session_error("ACK frame read failed: Connection Reset by peer".into(), true);
    assert_eq!(wire, CoordinatorSessionError::Transport("session I/O: ACK frame read failed: Connection Reset by peer".into()));
    assert!(matches!(
        classify_legacy_session_error("frame read timed out".into(), false),
        CoordinatorSessionError::Transport(_)
    ));
    let durable = classify_legacy_session_error("Lease revoke before drop failed".into(), true);
    assert_eq!(durable, CoordinatorSessionError::Storage("session durable lease operation: Lease revoke before drop failed".into()));
    let legacy = classify_legacy_session_error("Lease revoke before drop failed".into(), false);
    assert_eq!(legacy, CoordinatorSessionError::Protocol("session protocol: Lease revoke before drop failed".into()));
    // the original's own markers are recognised as written
    assert!(matches!(
        classify_legacy_session_error("Lease 저장소 쓰기 실패".into(), false),
        CoordinatorSessionError::Storage(_)
    ));
    assert!(matches!(
        classify_legacy_session_error("ACK 읽기 — 스트림이 끊겼다".into(), false),
        CoordinatorSessionError::Transport(_)
    ));
    assert!(matches!(
        classify_legacy_session_error("Lease 갱신 실패".into(), true),
        CoordinatorSessionError::Storage(_)
    ));
    // the bare word "storage" names no failure of the store
    assert_eq!(
        classify_legacy_session_error("storage".into(), true),
        CoordinatorSessionError::Protocol("session protocol: storage".into())
    );
    let protocol = classify_legacy_session_error("grant_id correlation differs".into(), true);
    assert_eq!(protocol, CoordinatorSessionError::Protocol("session protocol: grant_id correlation differs".into()));
    let kept = CoordinatorSessionError::Storage("resume".into());
    assert_eq!(settle_session_error(SessionHandlerError::Classified(kept.clone()), false), kept);
    assert!(matches!(
        settle_session_error(SessionHandlerError::Legacy("broken pipe".into()), false),
        CoordinatorSessionError::Transport(_)
    ));
    assert_eq!(
        framing_failure("HELLO_MISSING", "HELLO_REJECTED", false, "truncated"),
        CoordinatorSessionError::Transport("session: HELLO_MISSING: truncated".into())
    );
    assert_eq!(
        framing_failure("HELLO_MISSING", "HELLO_REJECTED", true, "bad signature"),
        CoordinatorSessionError::Protocol("session: HELLO_REJECTED: bad signature".into())
    );
}
