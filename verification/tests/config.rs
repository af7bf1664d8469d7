use coordinator::config::{decode_hex, encode_hex, hex_to_seed, parse_config_from_args, CoordinatorConfig};

fn args_of(items: &[&str]) -> Vec<String> {
    items.iter().map(|s| s.to_string()).collect()
}

fn legacy_args(extra: &[&str]) -> Vec<String> {
    let own_seed = "11".repeat(32);
    let peer = "22".repeat(32);
    let mut args = args_of(&[
        "--listen", "127.0.0.1:0",
        "--own-seed", own_seed.as_str(),
        "--peer-pubkey", peer.as_str(),
        "--coordinator-device-id", "01JCOORDRENEWEXT00000001",
        "--agent-device-id", "01JAGENTRENEWEXT00000001",
        "--grant-id", "01JGRANTRENEWEXT00000001",
        "--attempt-id", "01JATTEMPTRENEWEXT000001",
        "--lease-id", "01JLEASERENEWEXT00000001",
        "--job-id", "01JJOBRENEWEXT0000000001",
        "--i-understand-legacy-mode-is-unsafe", "true",
    ]);
    args.extend(extra.iter().map(|s| s.to_string()));
    args
}

fn parse(extra: &[&str]) -> Result<CoordinatorConfig, String> {
    parse_config_from_args(&legacy_args(extra))
}

fn refused_with(extra: &[&str], code: &str) {
    let message = parse(extra).expect_err("must be refused");
    assert!(message.starts_with(code), "{code} expected, got {message}");
}

fn stored_lane(extra: &[&str]) -> Vec<&'static str> {
    let mut v = vec![
        "--grant-from-control-db", "control.sqlite3",
        "--stored-grant-job-id", "01JJOBRENEWEXT0000000001",
        "--stored-grant-attempt-id", "01JATTEMPTRENEWEXT000001",
        "--stored-grant-lease-id", "01JLEASERENEWEXT00000001",
        "--submitter-keyring", "keys.json",
    ];
    for e in extra {
        v.push(Box::leak(e.to_string().into_boxed_str()));
    }
    v
}

#[test]
fn a_legacy_configuration_parses_with_its_defaults() {
    let config = parse(&[]).expect("parses");
    assert_eq!(config.listen, "127.0.0.1:0");
    assert_eq!(config.own_seed, [0x11u8; 32]);
    assert_eq!(config.agent_verifying_key, [0x22u8; 32]);
    assert_eq!(config.lease_id, "01JLEASERENEWEXT00000001");
    assert_eq!(config.job_id, "01JJOBRENEWEXT0000000001");
    assert!(config.allow_unsafe_legacy_mode);
    assert_eq!(config.max_connections, 1);
    assert_eq!(config.accept_timeout_ms, 30_000);
    assert_eq!(config.pause_before_next_accept_ms, 0);
    assert_eq!(config.fence_epoch, 0);
    assert_eq!(config.renewed_fence_epoch, 0);
    assert_eq!(config.renew_extension_ms, 60_000);
    assert_eq!(config.renew_rounds, 1);
    assert_eq!(config.stored_grant_ttl_ms, 60_000);
    assert_eq!(config.max_total_duration_seconds, 86_400);
    assert_eq!(config.lease_ttl_ms, 60_000);
    assert_eq!(config.expect_heartbeats, 0);
    assert_eq!(config.renew_outcome_override, None);
    assert_eq!(config.revoke_after_round, None);
    assert_eq!(config.manifest_file, None);
    assert_eq!(config.stored_grant_job_id, "");
    assert!(!config.multi_agent);
    assert!(!config.do_renew);
}

#[test]
fn given_values_are_read() {
    let config = parse(&[
        "--renew-extension-ms", "1000",
        "--max-connections", "+3",
        "--renew-outcome-override", "-3",
        "--revoke-fence-epoch", "6",
        "--revoke-lease-id", "lease-b",
        "--manifest-file", "m.pb",
        "--do-renew", "true",
        "--fence-epoch", "18446744073709551615",
    ])
    .expect("parses");
    assert_eq!(config.renew_extension_ms, 1000);
    assert_eq!(config.max_connections, 3);
    assert_eq!(config.renew_outcome_override, Some(-3));
    assert_eq!(config.revoke_fence_epoch_override, Some(6));
    assert_eq!(config.revoke_lease_id_override, Some("lease-b".to_string()));
    assert_eq!(config.manifest_file, Some("m.pb".to_string()));
    assert!(config.do_renew);
    assert_eq!(config.fence_epoch, u64::MAX);
}

#[test]
fn the_last_of_two_values_is_used_but_the_first_must_parse() {
    let config = parse(&["--renew-rounds", "2", "--renew-rounds", "5"]).expect("parses");
    assert_eq!(config.renew_rounds, 5);
    assert!(parse(&["--renew-rounds", "x", "--renew-rounds", "5"]).is_err());
    refused_with(&["--do-renew", "tru", "--do-renew", "false"], "STARTUP_REFUSED: INVALID_BOOL");
}

#[test]
fn malformed_arguments_are_refused() {
    let mut no_value = legacy_args(&[]);
    no_value.push("--do-renew".to_string());
    assert!(parse_config_from_args(&no_value).is_err());
    let mut not_a_flag = legacy_args(&[]);
    not_a_flag.push("do-renew".to_string());
    not_a_flag.push("true".to_string());
    assert!(parse_config_from_args(&not_a_flag).is_err());
    let missing: Vec<String> = legacy_args(&[]).into_iter().skip(2).collect();
    assert!(parse_config_from_args(&missing).is_err(), "--listen is required");
}

#[test]
fn numbers_out_of_range_or_shape_are_refused() {
    assert!(parse(&["--max-connections", "4294967296"]).is_err());
    assert!(parse(&["--max-connections", "4294967295"]).is_ok());
    assert!(parse(&["--accept-timeout-ms", "18446744073709551616"]).is_err());
    assert!(parse(&["--accept-timeout-ms", "-1"]).is_err());
    assert!(parse(&["--accept-timeout-ms", ""]).is_err());
    assert!(parse(&["--accept-timeout-ms", "1 "]).is_err());
    assert!(parse(&["--renew-outcome-override", "2147483648"]).is_err());
    assert_eq!(
        parse(&["--renew-outcome-override", "-2147483648"]).expect("parses").renew_outcome_override,
        Some(i32::MIN)
    );
}

#[test]
fn seeds_must_be_thirty_two_bytes_of_hex() {
    assert!(parse_config_from_args(&legacy_args(&["--own-seed", "11"])).is_err());
    assert!(parse(&["--own-seed", &"1".repeat(63)]).is_err());
    assert!(parse(&["--own-seed", &"zz".repeat(32)]).is_err());
    assert_eq!(hex_to_seed(&"aB".repeat(32)), Ok([0xabu8; 32]));
    assert_eq!(decode_hex("00ff10"), Some(vec![0x00, 0xff, 0x10]));
    assert_eq!(decode_hex("0"), None);
    assert_eq!(decode_hex("0g"), None);
}

#[test]
fn a_boolean_that_is_neither_true_nor_false_is_refused() {
    refused_with(&["--do-renew", "yes"], "STARTUP_REFUSED: INVALID_BOOL");
    refused_with(&["--multi-agent", "TRUE"], "STARTUP_REFUSED: INVALID_BOOL");
}

#[test]
fn a_flag_this_command_does_not_read_is_refused() {
    refused_with(&["--manifest-fiel", "m.pb"], "STARTUP_REFUSED: UNKNOWN_FLAGS");
    refused_with(&["--session-id", "s"], "STARTUP_REFUSED: UNKNOWN_FLAGS");
    let message = parse(&["--manifest-fiel", "m.pb", "--session-id", "s"]).unwrap_err();
    assert_eq!(
        message,
        "STARTUP_REFUSED: UNKNOWN_FLAGS flags this command does not read: --manifest-fiel, --session-id"
    );
}

#[test]
fn the_stored_lane_refuses_what_it_would_not_apply() {
    assert!(parse(&stored_lane(&[])).is_ok());
    refused_with(&stored_lane(&["--manifest-file", "m.pb"]), "STARTUP_REFUSED: STORED_LANE_IGNORES");
    refused_with(&stored_lane(&["--corrupt-lease-signature", "true"]), "STARTUP_REFUSED: STORED_LANE_IGNORES");
    refused_with(
        &stored_lane(&["--lease-db", "l.sqlite3", "--fence-epoch", "3"]),
        "STARTUP_REFUSED: STORED_LANE_IGNORES",
    );
    assert!(parse(&stored_lane(&["--fence-epoch", "3"])).is_ok(), "without a lease store the epoch is read");
}

#[test]
fn the_stored_lane_needs_matching_identifiers_and_a_keyring() {
    let mut missing = stored_lane(&[]);
    missing.drain(2..4);
    refused_with(&missing, "STARTUP_REFUSED: STORED_LANE_ID_MISSING");
    let mut conflict = stored_lane(&[]);
    conflict[5] = "01JATTEMPTOTHER000000001";
    refused_with(&conflict, "STARTUP_REFUSED: STORED_LANE_ID_CONFLICT");
    let mut no_keyring = stored_lane(&[]);
    no_keyring.truncate(8);
    refused_with(&no_keyring, "STARTUP_REFUSED: STORED_LANE_KEYRING_MISSING");
}

#[test]
fn stored_lane_flags_without_the_control_db_are_refused() {
    refused_with(&["--stored-grant-ttl-ms", "5"], "STARTUP_REFUSED: STORED_LANE_ONLY");
    refused_with(&["--submitter-keyring", "k.json"], "STARTUP_REFUSED: STORED_LANE_ONLY");
}

#[test]
fn resume_skips_the_stored_lane_rules() {
    let config = parse(&["--grant-from-control-db", "c.sqlite3", "--resume-protocol", "true"]).expect("parses");
    assert_eq!(config.grant_from_control_db, Some("c.sqlite3".to_string()));
    assert!(config.resume_protocol);
}

#[test]
fn report_stores_need_expected_reports() {
    refused_with(&["--neighbor-report-db", "n.sqlite3"], "STARTUP_REFUSED: NEEDS_EXPECT");
    refused_with(&["--liveness-db", "h.sqlite3"], "STARTUP_REFUSED: NEEDS_EXPECT");
    let config = parse(&["--liveness-db", "h.sqlite3", "--expect-heartbeats", "2"]).expect("parses");
    assert_eq!(config.liveness_db_path, Some("h.sqlite3".to_string()));
    assert_eq!(config.expect_heartbeats, 2);
}

#[test]
fn multi_agent_flags_need_the_multi_agent_lane() {
    refused_with(&["--extra-agents", "b=x"], "STARTUP_REFUSED: MULTI_AGENT_ONLY");
    refused_with(&["--require-concurrent-sessions", "2"], "STARTUP_REFUSED: MULTI_AGENT_ONLY");
    let config = parse(&["--multi-agent", "true", "--require-concurrent-sessions", "2"]).expect("parses");
    assert_eq!(config.require_concurrent_sessions, 2);
}

#[test]
fn refusals_come_in_order() {
    refused_with(&["--do-renew", "maybe", "--nope", "1"], "STARTUP_REFUSED: INVALID_BOOL");
    refused_with(&["--nope", "1", "--extra-agents", "b=x"], "STARTUP_REFUSED: UNKNOWN_FLAGS");
}

#[test]
fn hex_text_round_trips() {
    assert_eq!(encode_hex(&[0x00, 0xab, 0x1f]), "00ab1f");
    assert_eq!(encode_hex(&[]), "");
    let bytes: Vec<u8> = (0..=255u8).collect();
    assert_eq!(decode_hex(&encode_hex(&bytes)), Some(bytes));
}
