use coordinator::job_store::{
    decode_u64, encode_u64, AcceptedJobSubmission, CoordinatorJobStore, JobManifestFacts, JobState,
    JobStoreError, ManifestCorruption, QueueFailure, StoredJob, VerifiedJobManifest,
};

fn submission(job_id: &str, key_byte: u8) -> AcceptedJobSubmission {
    AcceptedJobSubmission {
        idempotency_key: [key_byte; 16],
        job_id: job_id.to_string(),
        submitter_device_id: "submitter-1".to_string(),
        manifest_hash: [7; 32],
        deadline_unix_ms: Some(10_000),
        max_queue_duration_ms: Some(1_000),
    }
}

fn open_temp() -> CoordinatorJobStore {
    CoordinatorJobStore::new()
}

fn queued(store: &mut CoordinatorJobStore, submission: &AcceptedJobSubmission) -> StoredJob {
    store.submit_accepted(submission, 100).unwrap();
    store.start_planning(&submission.job_id, 200).unwrap();
    store.enqueue(&submission.job_id, "plan-1", 300).unwrap()
}

#[test]
fn submission_retry_returns_original_timestamp_and_no_duplicate() {
    let mut store = open_temp();
    let request = submission("job-1", 1);
    let first = store.submit_accepted(&request, 100).unwrap();
    let retry = store.submit_accepted(&request, 999).unwrap();
    assert!(first.created);
    assert!(!retry.created);
    assert_eq!(retry.job.submitted_at_unix_ms, 100);
    assert_eq!(retry.job, first.job);
}

#[test]
fn changed_payload_with_same_idempotency_key_is_rejected_without_overwrite() {
    let mut store = open_temp();
    let original = submission("job-1", 1);
    store.submit_accepted(&original, 100).unwrap();
    let mut changed = original.clone();
    changed.manifest_hash = [8; 32];
    let result = store.submit_accepted(&changed, 200);
    assert!(matches!(result, Err(JobStoreError::IdempotencyConflict { .. })));
    assert_eq!(store.get("job-1").unwrap().unwrap().manifest_hash, [7; 32]);
}

#[test]
fn same_job_id_with_another_key_is_rejected() {
    let mut store = open_temp();
    store.submit_accepted(&submission("job-1", 1), 100).unwrap();
    let result = store.submit_accepted(&submission("job-1", 2), 200);
    assert_eq!(
        result,
        Err(JobStoreError::JobIdConflict {
            job_id: "job-1".to_string()
        })
    );
}

#[test]
fn blank_identity_and_zero_queue_duration_fail_closed() {
    let mut store = open_temp();
    let mut request = submission("   ", 1);
    assert_eq!(store.submit_accepted(&request, 100), Err(JobStoreError::InvalidInput("job_id")));
    request.job_id = "job-1".to_string();
    request.submitter_device_id = "".to_string();
    assert_eq!(
        store.submit_accepted(&request, 100),
        Err(JobStoreError::InvalidInput("submitter_device_id"))
    );
    request.submitter_device_id = "submitter".to_string();
    request.max_queue_duration_ms = Some(0);
    assert_eq!(
        store.submit_accepted(&request, 100),
        Err(JobStoreError::InvalidInput("max_queue_duration_ms"))
    );
    assert!(store.get("job-1").unwrap().is_none());
}

#[test]
fn fixed_width_zero_bytes_are_not_invented_as_an_invalid_encoding() {
    let mut store = open_temp();
    let mut request = submission("job-1", 1);
    request.idempotency_key = [0; 16];
    request.manifest_hash = [0; 32];
    let stored = store.submit_accepted(&request, 100).unwrap().job;
    assert_eq!(stored.manifest_hash, [0; 32]);
}

#[test]
fn only_normative_initial_transition_order_is_allowed() {
    let mut store = open_temp();
    let request = submission("job-1", 1);
    store.submit_accepted(&request, 100).unwrap();
    let skipped = store.enqueue("job-1", "plan-1", 200);
    assert!(matches!(
        skipped,
        Err(JobStoreError::InvalidTransition {
            from: JobState::Submitted,
            to: JobState::Queued
        })
    ));
    assert_eq!(store.get("job-1").unwrap().unwrap().revision, 0);
}

#[test]
fn planning_and_enqueue_retries_are_idempotent_but_plan_change_is_not() {
    let mut store = open_temp();
    let request = submission("job-1", 1);
    store.submit_accepted(&request, 100).unwrap();
    let planning = store.start_planning("job-1", 200).unwrap();
    assert_eq!(store.start_planning("job-1", 999).unwrap(), planning);
    let queued = store.enqueue("job-1", "plan-1", 300).unwrap();
    assert_eq!(store.enqueue("job-1", "plan-1", 999).unwrap(), queued);
    assert!(matches!(
        store.enqueue("job-1", "plan-2", 999),
        Err(JobStoreError::PlanConflict { .. })
    ));
    assert_eq!(store.get("job-1").unwrap().unwrap(), queued);
}

#[test]
fn clock_rollback_does_not_advance_state() {
    let mut store = open_temp();
    let request = submission("job-1", 1);
    store.submit_accepted(&request, 100).unwrap();
    assert!(matches!(
        store.start_planning("job-1", 99),
        Err(JobStoreError::ClockRollback { .. })
    ));
    assert_eq!(store.get("job-1").unwrap().unwrap().state, JobState::Submitted);
}

#[test]
fn deadline_boundary_is_strict_and_one_millisecond_after_fails() {
    let mut store = open_temp();
    queued(&mut store, &submission("job-1", 1));
    assert!(matches!(
        store.fail_queued("job-1", QueueFailure::DeadlinePassed, 10_000),
        Err(JobStoreError::GuardNotMet(_))
    ));
    assert_eq!(store.get("job-1").unwrap().unwrap().state, JobState::Queued);
    let failed = store.fail_queued("job-1", QueueFailure::DeadlinePassed, 10_001).unwrap();
    assert_eq!(failed.queue_failure, Some(QueueFailure::DeadlinePassed));
}

#[test]
fn queue_timeout_boundary_is_strict_and_one_millisecond_after_fails() {
    let mut store = open_temp();
    queued(&mut store, &submission("job-1", 1));
    assert!(matches!(
        store.fail_queued("job-1", QueueFailure::QueueTimeout, 1_300),
        Err(JobStoreError::GuardNotMet(_))
    ));
    let failed = store.fail_queued("job-1", QueueFailure::QueueTimeout, 1_301).unwrap();
    assert_eq!(failed.queue_failure, Some(QueueFailure::QueueTimeout));
}

#[test]
fn no_independent_timeout_never_turns_into_zero_duration_timeout() {
    let mut store = open_temp();
    let mut request = submission("job-1", 1);
    request.max_queue_duration_ms = None;
    queued(&mut store, &request);
    assert!(matches!(
        store.fail_queued("job-1", QueueFailure::QueueTimeout, u64::MAX),
        Err(JobStoreError::GuardNotMet(_))
    ));
    assert_eq!(store.get("job-1").unwrap().unwrap().state, JobState::Queued);
}

#[test]
fn permanent_infeasibility_requires_reason_and_stays_distinct() {
    let mut store = open_temp();
    queued(&mut store, &submission("job-1", 1));
    assert_eq!(
        store.fail_queued(
            "job-1",
            QueueFailure::PermanentlyInfeasible {
                reason: "  ".to_string()
            },
            500
        ),
        Err(JobStoreError::InvalidInput("permanent infeasibility reason"))
    );
    let reason = "all enrolled GPUs are below required VRAM".to_string();
    let failed = store
        .fail_queued(
            "job-1",
            QueueFailure::PermanentlyInfeasible {
                reason: reason.clone(),
            },
            500,
        )
        .unwrap();
    assert_eq!(failed.queue_failure, Some(QueueFailure::PermanentlyInfeasible { reason }));
}

#[test]
fn terminal_retry_returns_original_and_different_reason_cannot_overwrite() {
    let mut store = open_temp();
    queued(&mut store, &submission("job-1", 1));
    let first = store.fail_queued("job-1", QueueFailure::QueueTimeout, 1_301).unwrap();
    let retry = store.fail_queued("job-1", QueueFailure::QueueTimeout, 9_999).unwrap();
    assert_eq!(retry, first);
    assert!(matches!(
        store.fail_queued("job-1", QueueFailure::DeadlinePassed, 10_001),
        Err(JobStoreError::InvalidTransition { .. })
    ));
    assert_eq!(store.get("job-1").unwrap().unwrap(), first);
}

#[test]
fn queue_is_deterministic_fifo_with_job_id_tie_breaker() {
    let mut store = open_temp();
    for (job_id, key, queued_at) in [("job-c", 3, 500), ("job-b", 2, 400), ("job-a", 1, 400)] {
        let request = submission(job_id, key);
        store.submit_accepted(&request, 100).unwrap();
        store.start_planning(job_id, 200).unwrap();
        store.enqueue(job_id, "plan-1", queued_at).unwrap();
    }
    let ids: Vec<_> = store
        .list_queued()
        .unwrap()
        .into_iter()
        .map(|job| job.job_id)
        .collect();
    assert_eq!(ids, ["job-a", "job-b", "job-c"]);
}

#[test]
fn corrupted_state_and_truncated_integer_fail_closed() {
    let mut store = open_temp();
    store.submit_accepted(&submission("job-1", 1), 100).unwrap();
    let stored = store.get("job-1").unwrap().unwrap();
    assert_eq!(stored.to_row().into_stored(), Ok(stored.clone()));

    let mut row = stored.to_row();
    row.state = "QUEUED".to_string();
    assert!(matches!(row.into_stored(), Err(JobStoreError::CorruptData(_))));
    let mut row = stored.to_row();
    row.state = "UNKNOWN".to_string();
    assert!(matches!(row.into_stored(), Err(JobStoreError::CorruptData(_))));
    let mut row = stored.to_row();
    row.revision = vec![1];
    assert!(matches!(row.into_stored(), Err(JobStoreError::CorruptData(_))));

    let second = submission("job-2", 2);
    let job = queued(&mut store, &second);
    let mut row = job.to_row();
    row.plan_id = Some(" ".to_string());
    assert!(matches!(row.into_stored(), Err(JobStoreError::CorruptData(_))));
}

#[test]
fn u64_max_timestamp_round_trips_without_sqlite_integer_truncation() {
    let mut store = open_temp();
    let request = submission("job-1", 1);
    let result = store.submit_accepted(&request, u64::MAX).unwrap();
    assert_eq!(result.job.submitted_at_unix_ms, u64::MAX);
    assert_eq!(store.get("job-1").unwrap().unwrap().submitted_at_unix_ms, u64::MAX);
    let row = result.job.to_row();
    assert_eq!(row.submitted_at_unix_ms, vec![0xff; 8]);
    assert_eq!(row.into_stored().unwrap().submitted_at_unix_ms, u64::MAX);
}

#[test]
fn plan_and_enqueue_is_one_transaction() {
    let mut store = open_temp();
    store.submit_accepted(&submission("job-1", 1), 100).unwrap();
    // A refused combined step leaves the Job exactly as it was.
    assert!(store.plan_and_enqueue("job-1", "plan-1", 50).is_err());
    let after_failure = store.get("job-1").unwrap().unwrap();
    assert_eq!(after_failure.state, JobState::Submitted, "PLANNING was left behind");
    assert_eq!(after_failure.revision, 0);
    assert_eq!(after_failure.planning_at_unix_ms, None);

    let queued = store.plan_and_enqueue("job-1", "plan-1", 200).unwrap();
    assert_eq!(queued.state, JobState::Queued);
    assert_eq!(queued.revision, 2);
    assert_eq!(queued.planning_at_unix_ms, Some(200));
    assert_eq!(queued.queued_at_unix_ms, Some(200));
    assert_eq!(queued.plan_id.as_deref(), Some("plan-1"));
    assert_eq!(store.plan_and_enqueue("job-1", "plan-1", 999).unwrap(), queued);
    assert!(matches!(
        store.plan_and_enqueue("job-1", "plan-2", 999),
        Err(JobStoreError::PlanConflict { .. })
    ));
}

#[test]
fn plan_and_enqueue_finishes_a_job_left_in_planning() {
    let mut store = open_temp();
    store.submit_accepted(&submission("job-1", 1), 100).unwrap();
    store.start_planning("job-1", 150).unwrap();
    let queued = store.plan_and_enqueue("job-1", "plan-1", 200).unwrap();
    assert_eq!(queued.state, JobState::Queued);
    assert_eq!(queued.planning_at_unix_ms, Some(150));
    assert_eq!(queued.revision, 2);
    assert!(matches!(
        store.plan_and_enqueue("job-1", "", 200),
        Err(JobStoreError::InvalidInput("plan_id"))
    ));
}

#[test]
fn stored_integers_are_eight_big_endian_bytes() {
    assert_eq!(encode_u64(0x0102_0304_0506_0708), vec![1, 2, 3, 4, 5, 6, 7, 8]);
    assert_eq!(decode_u64(&[1, 2, 3, 4, 5, 6, 7, 8], "x"), Ok(0x0102_0304_0506_0708));
    assert!(matches!(decode_u64(&[1, 2, 3], "x"), Err(JobStoreError::CorruptData(_))));
    assert!(matches!(decode_u64(&[], "x"), Err(JobStoreError::CorruptData(_))));
}

#[test]
fn get_of_an_unknown_job_is_none() {
    let store = open_temp();
    assert_eq!(store.get("nope"), Ok(None));
}

const MANIFEST_DEVICE: &str = "submitter-1";

/// A stand-in for the manifest hash: any function of the body serves the
/// store, which only compares what it is given.
fn body_hash(body: &[u8]) -> [u8; 32] {
    let mut h = [0u8; 32];
    for (i, b) in body.iter().enumerate() {
        h[i % 32] = h[i % 32].wrapping_mul(31).wrapping_add(*b);
    }
    h[31] = body.len() as u8;
    h
}

fn manifest_body(job_id: &str, device_id: &str, team_marker: &str) -> Vec<u8> {
    format!("manifest|{job_id}|{device_id}|team-{team_marker}|train.py").into_bytes()
}

fn verified_manifest(job_id: &str, device_id: &str, team_marker: &str) -> VerifiedJobManifest {
    let body = manifest_body(job_id, device_id, team_marker);
    VerifiedJobManifest {
        facts: JobManifestFacts { job_id: job_id.to_string(), submitter_device_id: device_id.to_string() },
        signer_id: device_id.to_string(),
        derived_hash: body_hash(&body),
        body,
    }
}

fn bound_submission(verified: &VerifiedJobManifest, key_byte: u8) -> AcceptedJobSubmission {
    AcceptedJobSubmission {
        idempotency_key: [key_byte; 16],
        job_id: verified.facts.job_id.clone(),
        submitter_device_id: verified.facts.submitter_device_id.clone(),
        manifest_hash: verified.derived_hash,
        deadline_unix_ms: Some(10_000),
        max_queue_duration_ms: Some(1_000),
    }
}

/// A store holding one manifest-bound Job read back from rows, the manifest
/// row as given.
fn reopened_with_row(
    job: StoredJob,
    signer_id: &str,
    body: Vec<u8>,
    decoded: Option<JobManifestFacts>,
) -> CoordinatorJobStore {
    let mut store = CoordinatorJobStore::new();
    let job_id = job.job_id.clone();
    let reread = job.to_row().into_stored().unwrap();
    assert_eq!(reread, job);
    store.restore(reread, [1; 16]).unwrap();
    let hash = body_hash(&body);
    store.restore_manifest(&job_id, signer_id, body, decoded, hash).unwrap();
    store
}

#[test]
fn verified_manifest_body_signature_and_derived_hash_survive_reopen() {
    let verified = verified_manifest("job-bound", MANIFEST_DEVICE, "original");
    let request = bound_submission(&verified, 1);
    let mut store = CoordinatorJobStore::new();
    let result = store.submit_verified_manifest(&request, &verified, 100).unwrap();
    assert!(result.created);
    assert_eq!(result.binding.manifest_body, verified.body);
    assert_eq!(result.binding.manifest_hash, request.manifest_hash);
    assert_eq!(result.binding.signer_id_at_submission, MANIFEST_DEVICE);

    let job = store.get("job-bound").unwrap().unwrap();
    let binding = store.get_manifest_binding("job-bound").unwrap().unwrap();
    let reopened = reopened_with_row(
        job,
        &binding.signer_id_at_submission,
        binding.manifest_body.clone(),
        Some(verified.facts.clone()),
    );
    let binding = reopened.get_manifest_binding("job-bound").unwrap().unwrap();
    assert_eq!(binding.manifest_body, verified.body);
    assert_eq!(binding.manifest_hash, body_hash(&binding.manifest_body));
    assert_eq!(binding.signer_id_at_submission, MANIFEST_DEVICE);
}

#[test]
fn identity_and_supplied_hash_mismatches_create_no_rows() {
    let verified = verified_manifest("job-bound", MANIFEST_DEVICE, "original");
    for mutation in ["job_id", "device_id", "hash"] {
        let mut store = CoordinatorJobStore::new();
        let mut request = bound_submission(&verified, 1);
        let expected = match mutation {
            "job_id" => {
                request.job_id = "another-job".to_string();
                JobStoreError::ManifestIdentityMismatch("job_id")
            }
            "device_id" => {
                request.submitter_device_id = "another-device".to_string();
                JobStoreError::ManifestIdentityMismatch("submitter_device_id")
            }
            "hash" => {
                request.manifest_hash[0] ^= 0xff;
                JobStoreError::ManifestHashMismatch
            }
            _ => unreachable!(),
        };
        assert_eq!(
            store.submit_verified_manifest(&request, &verified, 100),
            Err(expected),
            "mutation {mutation} must fail closed"
        );
        assert_eq!(store.get(&request.job_id), Ok(None));
        assert_eq!(store.get("job-bound"), Ok(None));
        assert_eq!(store.get_manifest_binding("job-bound"), Ok(None));
        let created = store.submit_verified_manifest(&bound_submission(&verified, 1), &verified, 100).unwrap();
        assert!(created.created, "the idempotency key was not bound by the refused submission");
    }
}

#[test]
fn a_manifest_signed_by_another_device_is_refused() {
    let mut verified = verified_manifest("job-bound", MANIFEST_DEVICE, "original");
    verified.signer_id = "other-device".to_string();
    let mut store = CoordinatorJobStore::new();
    assert_eq!(
        store.submit_verified_manifest(&bound_submission(&verified, 1), &verified, 100),
        Err(JobStoreError::ManifestIdentityMismatch("verified signer_id"))
    );
}

#[test]
fn verified_manifest_replay_returns_original_and_changed_manifest_conflicts() {
    let mut store = CoordinatorJobStore::new();
    let verified = verified_manifest("job-bound", MANIFEST_DEVICE, "original");
    let request = bound_submission(&verified, 1);
    let first = store.submit_verified_manifest(&request, &verified, 100).unwrap();
    let replay = store.submit_verified_manifest(&request, &verified, 999).unwrap();
    assert!(first.created);
    assert!(!replay.created);
    assert_eq!(replay.job, first.job);
    assert_eq!(replay.binding, first.binding);

    let changed = verified_manifest("job-bound", MANIFEST_DEVICE, "changed");
    let changed_same_key = bound_submission(&changed, 1);
    assert!(matches!(
        store.submit_verified_manifest(&changed_same_key, &changed, 200),
        Err(JobStoreError::IdempotencyConflict { .. })
    ));

    let changed_other_key = bound_submission(&changed, 2);
    assert_eq!(
        store.submit_verified_manifest(&changed_other_key, &changed, 200),
        Err(JobStoreError::JobIdConflict { job_id: "job-bound".to_string() })
    );
    assert_eq!(store.get_manifest_binding("job-bound").unwrap().unwrap(), first.binding);
}

#[test]
fn empty_and_undecodable_manifest_bodies_fail_closed() {
    let verified = verified_manifest("job-bound", MANIFEST_DEVICE, "original");
    let request = bound_submission(&verified, 1);
    for (body, decoded, expected) in [
        (Vec::new(), None, ManifestCorruption::EmptyBody),
        (vec![0x12, 0x05, b'a'], None, ManifestCorruption::UndecodableBody),
    ] {
        let mut store = CoordinatorJobStore::new();
        store.submit_verified_manifest(&request, &verified, 100).unwrap();
        let job = store.get(&request.job_id).unwrap().unwrap();
        let mut corrupted = reopened_with_row(job, MANIFEST_DEVICE, body, decoded);
        assert_eq!(
            corrupted.get_manifest_binding(&request.job_id),
            Err(JobStoreError::ManifestCorrupt { job_id: request.job_id.clone(), kind: expected })
        );
        assert!(corrupted.restore_manifest(&request.job_id, MANIFEST_DEVICE, vec![1], None, [0; 32]).is_err());
    }
}

#[test]
fn body_hash_and_job_identity_corruption_fail_closed_independently() {
    let mut store = CoordinatorJobStore::new();
    let verified = verified_manifest("job-hash", MANIFEST_DEVICE, "original");
    let request = bound_submission(&verified, 1);
    store.submit_verified_manifest(&request, &verified, 100).unwrap();
    let job = store.get(&request.job_id).unwrap().unwrap();
    let tampered = manifest_body("job-hash", MANIFEST_DEVICE, "tampered-team");
    let reopened = reopened_with_row(job, MANIFEST_DEVICE, tampered, Some(verified.facts.clone()));
    assert_eq!(
        reopened.get_manifest_binding(&request.job_id),
        Err(JobStoreError::ManifestCorrupt { job_id: request.job_id.clone(), kind: ManifestCorruption::HashMismatch })
    );

    let verified = verified_manifest("job-identity", MANIFEST_DEVICE, "original");
    let request = bound_submission(&verified, 2);
    store.submit_verified_manifest(&request, &verified, 100).unwrap();
    let mut job = store.get(&request.job_id).unwrap().unwrap();
    let elsewhere = manifest_body("body-points-elsewhere", MANIFEST_DEVICE, "original");
    job.manifest_hash = body_hash(&elsewhere);
    let reopened = reopened_with_row(
        job,
        MANIFEST_DEVICE,
        elsewhere,
        Some(JobManifestFacts { job_id: "body-points-elsewhere".into(), submitter_device_id: MANIFEST_DEVICE.into() }),
    );
    assert_eq!(
        reopened.get_manifest_binding(&request.job_id),
        Err(JobStoreError::ManifestCorrupt { job_id: request.job_id.clone(), kind: ManifestCorruption::JobIdMismatch })
    );

    let verified = verified_manifest("job-device-identity", MANIFEST_DEVICE, "original");
    let request = bound_submission(&verified, 3);
    store.submit_verified_manifest(&request, &verified, 100).unwrap();
    let mut job = store.get(&request.job_id).unwrap().unwrap();
    let elsewhere = manifest_body("job-device-identity", "body-device-elsewhere", "original");
    job.manifest_hash = body_hash(&elsewhere);
    let reopened = reopened_with_row(
        job,
        MANIFEST_DEVICE,
        elsewhere,
        Some(JobManifestFacts { job_id: "job-device-identity".into(), submitter_device_id: "body-device-elsewhere".into() }),
    );
    assert_eq!(
        reopened.get_manifest_binding(&request.job_id),
        Err(JobStoreError::ManifestCorrupt {
            job_id: request.job_id.clone(),
            kind: ManifestCorruption::SubmitterDeviceIdMismatch,
        })
    );
}

#[test]
fn device_signer_corruption_and_legacy_missing_body_fail_closed() {
    let mut store = CoordinatorJobStore::new();
    let verified = verified_manifest("job-device", MANIFEST_DEVICE, "original");
    let request = bound_submission(&verified, 1);
    store.submit_verified_manifest(&request, &verified, 100).unwrap();
    let job = store.get(&request.job_id).unwrap().unwrap();
    let reopened = reopened_with_row(job, "other-device", verified.body.clone(), Some(verified.facts.clone()));
    assert_eq!(
        reopened.get_manifest_binding(&request.job_id),
        Err(JobStoreError::ManifestCorrupt { job_id: request.job_id.clone(), kind: ManifestCorruption::SignerIdMismatch })
    );

    let legacy = submission("legacy-job", 2);
    store.submit_accepted(&legacy, 100).unwrap();
    assert_eq!(
        store.get_manifest_binding("legacy-job"),
        Err(JobStoreError::LegacyManifestMissing { job_id: "legacy-job".to_string() })
    );
    assert!(store.get("legacy-job").unwrap().is_some());
}

#[test]
fn a_manifest_row_needs_its_job() {
    let mut store = CoordinatorJobStore::new();
    assert!(store.restore_manifest("ghost", MANIFEST_DEVICE, vec![1], None, [0; 32]).is_err());
    assert_eq!(store.get_manifest_binding("ghost"), Ok(None));
}

#[test]
fn job_store_errors_read_as_their_text() {
    assert_eq!(
        JobStoreError::InvalidTransition { from: JobState::Queued, to: JobState::Planning }.message(),
        "invalid durable Job transition: Queued -> Planning"
    );
    assert_eq!(
        JobStoreError::ManifestCorrupt { job_id: "j".into(), kind: ManifestCorruption::HashMismatch }.message(),
        "durable Manifest for job j is corrupt: HashMismatch"
    );
    assert_eq!(
        JobStoreError::ClockRollback { earlier_unix_ms: 5, later_unix_ms: 10 }.message(),
        "clock moved backwards: event=5, prior=10"
    );
    assert_eq!(JobStoreError::InvalidInput("job_id").message(), "invalid job store input: job_id");
}
