use coordinator::lease_store::{
    CoordinatorLeaseStore, LeaseStoreError, RenewDecision, ResumeDecision, ResumeRequestIdentity,
    StoredLease,
};

fn sample(lease_id: &str) -> StoredLease {
    StoredLease {
        lease_id: lease_id.to_string(),
        job_id: "job-1".into(),
        attempt_id: "attempt-1".into(),
        holder_node_id: "agent-1".into(),
        fence_epoch: 5,
        expires_at_unix_ms: 1_000,
        issuing_coordinator_id: "coord-1".into(),
        coordinator_term: 1,
        issued_at_unix_ms: 500,
        renew_after_unix_ms: 800,
        max_total_duration_seconds: 3600,
        revoked_at_unix_ms: None,
    }
}

fn open_temp() -> CoordinatorLeaseStore {
    CoordinatorLeaseStore::new()
}

#[test]
fn open_insert_reopen_get_preserves_all_fields() {
    let record = sample("lease-1");
    let mut s = open_temp();
    let issued = s.get_or_issue(&record, 0).expect("issue");
    assert_eq!(issued, record);
    let fetched = s.get("lease-1").expect("get").expect("present");
    assert_eq!(fetched, record);
    // reopen: the row written for the lease is read back into a new store
    let reread = fetched.to_row().into_stored().expect("row reads back");
    let mut reopened = open_temp();
    reopened.get_or_issue(&reread, 0).expect("restore");
    assert_eq!(reopened.get("lease-1").expect("get").expect("present"), record);
}

#[test]
fn a_revoked_candidate_is_stored_as_given() {
    let mut record = sample("lease-1");
    record.revoked_at_unix_ms = Some(77);
    let mut s = open_temp();
    assert_eq!(s.get_or_issue(&record, 0), Ok(record.clone()));
    assert_eq!(s.get("lease-1"), Ok(Some(record)));
}

#[test]
fn renew_existing_updates_only_expiry_fields() {
    let mut s = open_temp();
    let record = sample("lease-1");
    s.get_or_issue(&record, 0).unwrap();

    let renewed = s.renew_existing("lease-1", 2_000, 1_800).unwrap();
    assert_eq!(renewed.expires_at_unix_ms, 2_000);
    assert_eq!(renewed.renew_after_unix_ms, 1_800);
    assert_eq!(renewed.fence_epoch, record.fence_epoch);
    assert_eq!(renewed.job_id, record.job_id);
}

#[test]
fn renew_missing_lease_id_is_not_found_and_creates_nothing() {
    let mut s = open_temp();
    let result = s.renew_existing("no-such-lease", 2_000, 1_800);
    assert!(matches!(result, Err(LeaseStoreError::NotFound)));
    assert!(s.get("no-such-lease").unwrap().is_none());
}

#[test]
fn conflicting_identity_is_rejected_without_overwrite() {
    let mut s = open_temp();
    let record = sample("lease-1");
    s.get_or_issue(&record, 0).unwrap();

    let mut conflicting = sample("lease-1");
    conflicting.job_id = "different-job".into();
    let result = s.get_or_issue(&conflicting, 0);
    assert!(matches!(
        result,
        Err(LeaseStoreError::IdentityConflict {
            field: "job_id",
            ..
        })
    ));
    let fetched = s.get("lease-1").unwrap().unwrap();
    assert_eq!(fetched.job_id, "job-1");
}

#[test]
fn conflicting_attempt_id_is_rejected_without_overwrite() {
    let mut s = open_temp();
    let record = sample("lease-1");
    s.get_or_issue(&record, 0).unwrap();

    let mut conflicting = sample("lease-1");
    conflicting.attempt_id = "different-attempt".into();
    let result = s.get_or_issue(&conflicting, 0);
    assert!(matches!(
        result,
        Err(LeaseStoreError::IdentityConflict {
            field: "attempt_id",
            ..
        })
    ));
    let fetched = s.get("lease-1").unwrap().unwrap();
    assert_eq!(fetched.attempt_id, "attempt-1");
}

#[test]
fn conflicting_holder_node_id_is_rejected_without_overwrite() {
    let mut s = open_temp();
    let record = sample("lease-1");
    s.get_or_issue(&record, 0).unwrap();

    let mut conflicting = sample("lease-1");
    conflicting.holder_node_id = "different-agent".into();
    let result = s.get_or_issue(&conflicting, 0);
    assert!(matches!(
        result,
        Err(LeaseStoreError::IdentityConflict {
            field: "holder_node_id",
            ..
        })
    ));
    let fetched = s.get("lease-1").unwrap().unwrap();
    assert_eq!(fetched.holder_node_id, "agent-1");
}

#[test]
fn conflicting_issuing_coordinator_id_is_rejected_without_overwrite() {
    let mut s = open_temp();
    let record = sample("lease-1");
    s.get_or_issue(&record, 0).unwrap();

    let mut conflicting = sample("lease-1");
    conflicting.issuing_coordinator_id = "different-coordinator".into();
    let result = s.get_or_issue(&conflicting, 0);
    assert!(matches!(
        result,
        Err(LeaseStoreError::IdentityConflict {
            field: "issuing_coordinator_id",
            ..
        })
    ));
    let fetched = s.get("lease-1").unwrap().unwrap();
    assert_eq!(fetched.issuing_coordinator_id, "coord-1");
}

#[test]
fn same_identity_reissue_returns_stored_value_not_candidate() {
    let mut s = open_temp();
    let record = sample("lease-1");
    s.get_or_issue(&record, 0).unwrap();

    let mut candidate_with_different_epoch = sample("lease-1");
    candidate_with_different_epoch.fence_epoch = 999;
    let result = s.get_or_issue(&candidate_with_different_epoch, 0).unwrap();
    assert_eq!(result.fence_epoch, 5, "the stored value wins");
}

#[test]
fn unexpired_existing_lease_is_reissued() {
    let mut s = open_temp();
    let record = sample("lease-1");
    s.get_or_issue(&record, 0).unwrap();
    let result = s.get_or_issue(&record, 999).unwrap();
    assert_eq!(result, record);
}

#[test]
fn expiry_boundary_is_inclusive() {
    let mut s = open_temp();
    let record = sample("lease-1");
    s.get_or_issue(&record, 0).unwrap();

    let before_expiry = s.get_or_issue(&record, 999).unwrap();
    assert_eq!(before_expiry, record);

    let result = s.get_or_issue(&record, 1_000);
    assert!(matches!(
        result,
        Err(LeaseStoreError::Expired {
            expires_at_unix_ms: 1_000
        })
    ));
}

#[test]
fn expired_existing_lease_is_rejected_without_overwrite() {
    let mut s = open_temp();
    let record = sample("lease-1");
    s.get_or_issue(&record, 0).unwrap();

    let mut candidate = record.clone();
    candidate.fence_epoch = 999;
    let result = s.get_or_issue(&candidate, 1_001);
    assert!(matches!(
        result,
        Err(LeaseStoreError::Expired {
            expires_at_unix_ms: 1_000
        })
    ));
    assert_eq!(
        s.get("lease-1").unwrap().unwrap(),
        record,
        "an expiry refusal must not overwrite the stored lease"
    );
}

#[test]
fn renew_within_duration_extends_expiry_when_not_exceeded() {
    let mut s = open_temp();
    let mut record = sample("lease-1");
    record.issued_at_unix_ms = 1_000;
    record.expires_at_unix_ms = 4_000_000;
    record.max_total_duration_seconds = 3_600;
    s.get_or_issue(&record, 0).unwrap();

    let now = 1_000 + 30 * 60 * 1_000;
    let result = s
        .renew_existing_within_duration("lease-1", now, now + 60_000, now + 30_000)
        .unwrap();
    match result {
        RenewDecision::Renewed(renewed) => {
            assert_eq!(renewed.expires_at_unix_ms, now + 60_000);
            assert_eq!(renewed.renew_after_unix_ms, now + 30_000);
        }
        other => panic!("within the limit but not Renewed: {other:?}"),
    }
    let fetched = s.get("lease-1").unwrap().unwrap();
    assert_eq!(fetched.expires_at_unix_ms, now + 60_000);
}

#[test]
fn renew_within_duration_refuses_and_does_not_extend_when_exceeded() {
    let mut s = open_temp();
    let mut record = sample("lease-1");
    record.issued_at_unix_ms = 1_000;
    record.expires_at_unix_ms = 4_000_000;
    record.renew_after_unix_ms = 3_000;
    record.max_total_duration_seconds = 3_600;
    s.get_or_issue(&record, 0).unwrap();

    let now = 1_000 + 3_600 * 1_000 + 1;
    let result = s
        .renew_existing_within_duration("lease-1", now, now + 60_000, now + 30_000)
        .unwrap();
    match result {
        RenewDecision::MaxDurationExceeded(stored) => {
            assert_eq!(stored.expires_at_unix_ms, 4_000_000);
            assert_eq!(stored.renew_after_unix_ms, 3_000);
        }
        other => panic!("past the limit but not MaxDurationExceeded: {other:?}"),
    }
    let fetched = s.get("lease-1").unwrap().unwrap();
    assert_eq!(fetched.expires_at_unix_ms, 4_000_000);
    assert_eq!(fetched.renew_after_unix_ms, 3_000);
}

#[test]
fn renew_within_duration_boundary_is_inclusive_of_the_limit() {
    let mut s = open_temp();
    let mut record = sample("lease-1");
    record.issued_at_unix_ms = 1_000;
    record.expires_at_unix_ms = 4_000_000;
    record.max_total_duration_seconds = 3_600;
    s.get_or_issue(&record, 0).unwrap();

    let now = 1_000 + 3_600 * 1_000;
    let result = s
        .renew_existing_within_duration("lease-1", now, now + 60_000, now + 30_000)
        .unwrap();
    assert!(
        matches!(result, RenewDecision::Renewed(_)),
        "exactly the limit is still allowed: {result:?}"
    );
}

#[test]
fn renew_within_duration_treats_clock_rollback_as_exceeded() {
    let mut s = open_temp();
    let mut record = sample("lease-1");
    record.issued_at_unix_ms = 10_000;
    record.expires_at_unix_ms = 20_000;
    record.max_total_duration_seconds = 3_600;
    s.get_or_issue(&record, 0).unwrap();

    let now = 5_000;
    let result = s
        .renew_existing_within_duration("lease-1", now, now + 60_000, now + 30_000)
        .unwrap();
    match result {
        RenewDecision::MaxDurationExceeded(stored) => {
            assert_eq!(stored.expires_at_unix_ms, 20_000, "not extended");
        }
        other => panic!("a clock rollback must fail closed: {other:?}"),
    }
}

#[test]
fn renew_within_duration_missing_lease_id_is_not_found() {
    let mut s = open_temp();
    let result = s.renew_existing_within_duration("no-such-lease", 1_000, 2_000, 1_800);
    assert!(matches!(result, Err(LeaseStoreError::NotFound)));
}

#[test]
fn renew_expiry_at_now_returns_expired_without_update() {
    let mut s = open_temp();
    let mut record = sample("lease-1");
    record.expires_at_unix_ms = 1_000;
    s.get_or_issue(&record, 0).unwrap();

    let result = s.renew_existing_within_duration("lease-1", 1_000, 2_000, 1_500);
    assert!(matches!(
        result,
        Err(LeaseStoreError::Expired {
            expires_at_unix_ms: 1_000
        })
    ));
    assert_eq!(s.get("lease-1").unwrap().unwrap(), record);
}

#[test]
fn renew_expiry_one_millisecond_after_now_succeeds() {
    let mut s = open_temp();
    let mut record = sample("lease-1");
    record.expires_at_unix_ms = 1_001;
    s.get_or_issue(&record, 0).unwrap();

    let result = s
        .renew_existing_within_duration("lease-1", 1_000, 2_000, 1_500)
        .unwrap();
    match result {
        RenewDecision::Renewed(renewed) => {
            assert_eq!(renewed.expires_at_unix_ms, 2_000);
            assert_eq!(renewed.renew_after_unix_ms, 1_500);
        }
        other => panic!("expiry one millisecond in the future must renew: {other:?}"),
    }
    let fetched = s.get("lease-1").unwrap().unwrap();
    assert_eq!(fetched.expires_at_unix_ms, 2_000);
    assert_eq!(fetched.renew_after_unix_ms, 1_500);
}

#[test]
fn u64_max_fields_round_trip_without_truncation() {
    let mut s = open_temp();
    let mut record = sample("lease-1");
    record.fence_epoch = u64::MAX;
    record.expires_at_unix_ms = u64::MAX;
    s.get_or_issue(&record, 0).unwrap();

    let fetched = s.get("lease-1").unwrap().unwrap();
    assert_eq!(fetched.fence_epoch, u64::MAX);
    assert_eq!(fetched.expires_at_unix_ms, u64::MAX);
}

#[test]
fn mark_revoked_persists_and_is_idempotent() {
    let mut store = open_temp();
    store.get_or_issue(&sample("lease-1"), 0).unwrap();

    let revoked = store.mark_revoked("lease-1", 1_234).unwrap();
    assert_eq!(revoked.revoked_at_unix_ms, Some(1_234));
    assert_eq!(
        store.get("lease-1").unwrap().unwrap().revoked_at_unix_ms,
        Some(1_234)
    );

    let repeated = store.mark_revoked("lease-1", 9_999).unwrap();
    assert_eq!(repeated.revoked_at_unix_ms, Some(1_234));
    assert_eq!(
        store.get("lease-1").unwrap().unwrap().revoked_at_unix_ms,
        Some(1_234)
    );
    let reread = store.get("lease-1").unwrap().unwrap().to_row().into_stored().unwrap();
    assert_eq!(reread.revoked_at_unix_ms, Some(1_234));
    let mut reopened = open_temp();
    reopened.get_or_issue(&reread, 0).unwrap();
    assert_eq!(reopened.get("lease-1").unwrap().unwrap().revoked_at_unix_ms, Some(1_234));
    assert!(matches!(reopened.mark_revoked("lease-1", 5), Ok(l) if l.revoked_at_unix_ms == Some(1_234)));
}

#[test]
fn revoked_lease_cannot_be_reissued_or_overwritten() {
    let mut store = open_temp();
    let record = sample("lease-1");
    store.get_or_issue(&record, 0).unwrap();
    store.mark_revoked("lease-1", 7_000).unwrap();

    let mut candidate = record.clone();
    candidate.fence_epoch = 999;
    candidate.expires_at_unix_ms = 999_999;
    let result = store.get_or_issue(&candidate, 0);
    assert!(matches!(
        result,
        Err(LeaseStoreError::Revoked {
            revoked_at_unix_ms: 7_000
        })
    ));

    let fetched = store.get("lease-1").unwrap().unwrap();
    assert_eq!(fetched.fence_epoch, record.fence_epoch);
    assert_eq!(fetched.expires_at_unix_ms, record.expires_at_unix_ms);
    assert_eq!(fetched.revoked_at_unix_ms, Some(7_000));
}

#[test]
fn revoked_lease_cannot_be_renewed() {
    let mut store = open_temp();
    store.get_or_issue(&sample("lease-1"), 0).unwrap();
    store.mark_revoked("lease-1", 8_000).unwrap();

    let result = store.renew_existing_within_duration("lease-1", 1_000, 2_000, 1_500);
    assert!(matches!(
        result,
        Err(LeaseStoreError::Revoked {
            revoked_at_unix_ms: 8_000
        })
    ));
    assert_eq!(
        store.get("lease-1").unwrap().unwrap().expires_at_unix_ms,
        1_000
    );
}

fn identity(epoch: u64) -> ResumeRequestIdentity {
    ResumeRequestIdentity {
        lease_id: "lease-1".into(),
        node_id: "agent-1".into(),
        job_id: "job-1".into(),
        attempt_id: "attempt-1".into(),
        fence_epoch: epoch,
    }
}

#[test]
fn classify_resume_obeys_identity_revoke_expiry_and_epoch_order() {
    let mut store = open_temp();
    let mut record = sample("lease-1");
    record.expires_at_unix_ms = 10_000;
    record.fence_epoch = 7;
    store.get_or_issue(&record, 0).unwrap();

    assert!(matches!(
        store.classify_resume(&identity(7), 9_999).unwrap(),
        ResumeDecision::Resumed(ref returned) if returned.expires_at_unix_ms == 10_000
    ));
    assert!(matches!(
        store.classify_resume(&identity(6), 9_999).unwrap(),
        ResumeDecision::Superseded { .. }
    ));
    assert!(matches!(
        store.classify_resume(&identity(8), 9_999).unwrap(),
        ResumeDecision::EpochAhead { .. }
    ));

    let mut wrong_node = identity(7);
    wrong_node.node_id = "other-node".into();
    assert!(matches!(
        store.classify_resume(&wrong_node, 9_999).unwrap(),
        ResumeDecision::IdentityConflict {
            field: "node_id",
            ..
        }
    ));
    let mut missing = identity(7);
    missing.lease_id = "missing".into();
    assert!(matches!(
        store.classify_resume(&missing, 9_999).unwrap(),
        ResumeDecision::UnknownLease
    ));

    store.mark_revoked("lease-1", 9_000).unwrap();
    assert!(
        matches!(
            store.classify_resume(&identity(7), 10_000).unwrap(),
            ResumeDecision::Revoked { .. }
        ),
        "revoke must win over the expiry boundary"
    );

    let mut expired_store = open_temp();
    let mut expired = sample("expired");
    expired.expires_at_unix_ms = 10_000;
    expired_store.get_or_issue(&expired, 0).unwrap();
    let expired_identity = ResumeRequestIdentity {
        lease_id: "expired".into(),
        node_id: expired.holder_node_id.clone(),
        job_id: expired.job_id.clone(),
        attempt_id: expired.attempt_id.clone(),
        fence_epoch: expired.fence_epoch,
    };
    assert!(matches!(
        expired_store
            .classify_resume(&expired_identity, 10_000)
            .unwrap(),
        ResumeDecision::Expired { .. }
    ));
}

#[test]
fn lease_errors_read_as_their_messages() {
    assert_eq!(
        LeaseStoreError::Expired { expires_at_unix_ms: 1_000 }.message(),
        "lease expired at unix ms: 1000"
    );
    assert_eq!(
        LeaseStoreError::Revoked { revoked_at_unix_ms: 0 }.message(),
        "lease revoked at unix ms: 0"
    );
    assert_eq!(
        LeaseStoreError::IdentityConflict {
            field: "job_id",
            stored: "a".into(),
            requested: "b".into()
        }
        .message(),
        "identity conflict: job_id stored=a requested=b"
    );
}

#[test]
fn stored_rows_read_back_and_truncated_numbers_fail_closed() {
    let mut record = sample("lease-1");
    record.fence_epoch = u64::MAX;
    record.revoked_at_unix_ms = Some(7);
    assert_eq!(record.to_row().into_stored(), Ok(record.clone()));
    let mut row = record.to_row();
    row.expires_at_unix_ms = vec![1, 2, 3];
    assert!(matches!(row.into_stored(), Err(LeaseStoreError::Io(_))));
    let mut row = record.to_row();
    row.revoked_at_unix_ms = Some(vec![]);
    assert!(matches!(row.into_stored(), Err(LeaseStoreError::Io(_))));
}
