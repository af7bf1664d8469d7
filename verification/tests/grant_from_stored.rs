use coordinator::grant_from_stored::{
    check_manifest_lifetime, check_stored_grant, stored_grant_fields, stored_grant_nonce_input,
    wire_max_total_duration, GrantAttempt, HeldReservation, StoredGrantError, StoredGrantRequest,
};
use coordinator::job_store::{CoordinatorJobStore, JobState, StoredJob};
use coordinator::lease_store::{CoordinatorLeaseStore, StoredLease};

fn staging_job() -> StoredJob {
    StoredJob {
        job_id: "job-1".into(),
        submitter_device_id: "submitter-1".into(),
        manifest_hash: [7; 32],
        state: JobState::Staging,
        submitted_at_unix_ms: 100,
        planning_at_unix_ms: Some(110),
        queued_at_unix_ms: Some(120),
        staging_at_unix_ms: Some(130),
        deadline_unix_ms: None,
        max_queue_duration_ms: None,
        plan_id: Some("plan-1".into()),
        queue_failure: None,
        failed_at_unix_ms: None,
        running_at_unix_ms: None,
        run_terminal: None,
        worker_reported_finished_at_unix_ms: None,
        requeue_count: 0,
        resume_checkpoint: None,
        revision: 3,
    }
}

fn lease() -> StoredLease {
    StoredLease {
        lease_id: "lease-1".into(),
        job_id: "job-1".into(),
        attempt_id: "attempt-1".into(),
        holder_node_id: "node-1".into(),
        fence_epoch: 3,
        expires_at_unix_ms: 10_000,
        issuing_coordinator_id: "coord-1".into(),
        coordinator_term: 1,
        issued_at_unix_ms: 100,
        renew_after_unix_ms: 5_000,
        max_total_duration_seconds: 3600,
        revoked_at_unix_ms: None,
    }
}

fn attempt() -> GrantAttempt {
    GrantAttempt {
        attempt_id: "attempt-1".into(),
        job_id: "job-1".into(),
        lease_id: "lease-1".into(),
        fence_epoch: 3,
    }
}

fn request() -> StoredGrantRequest {
    StoredGrantRequest {
        job_id: "job-1".into(),
        attempt_id: "attempt-1".into(),
        lease_id: "lease-1".into(),
        grant_id: "grant-1".into(),
        issued_at_unix_ms: 1_000,
        expires_at_unix_ms: 9_000,
        nonce: vec![0; 16],
    }
}

fn reservations() -> Vec<HeldReservation> {
    vec![HeldReservation {
        node_id: "node-1".into(),
        job_id: "job-1".into(),
        attempt_id: "attempt-1".into(),
    }]
}

fn stores() -> (CoordinatorJobStore, CoordinatorLeaseStore) {
    let mut jobs = CoordinatorJobStore::new();
    jobs.restore(staging_job(), [1; 16]).unwrap();
    let mut leases = CoordinatorLeaseStore::new();
    leases.get_or_issue(&lease(), 0).unwrap();
    (jobs, leases)
}

#[test]
fn a_consistent_request_carries_the_stored_lease() {
    let (jobs, leases) = stores();
    assert_eq!(check_stored_grant(&jobs, Some(&attempt()), &leases, &reservations(), &request()), Ok(lease()));
}

#[test]
fn every_mismatch_is_a_refusal() {
    let (jobs, mut leases) = stores();
    let refused = |r: Result<StoredLease, StoredGrantError>| matches!(r, Err(StoredGrantError::Refused(_)));

    let mut late = request();
    late.expires_at_unix_ms = 10_001;
    assert!(refused(check_stored_grant(&jobs, Some(&attempt()), &leases, &reservations(), &late)));
    let mut backwards = request();
    backwards.issued_at_unix_ms = 9_000;
    assert!(refused(check_stored_grant(&jobs, Some(&attempt()), &leases, &reservations(), &backwards)));
    assert!(refused(check_stored_grant(&jobs, None, &leases, &reservations(), &request())));
    let mut stale = attempt();
    stale.fence_epoch = 2;
    assert!(refused(check_stored_grant(&jobs, Some(&stale), &leases, &reservations(), &request())));
    assert!(refused(check_stored_grant(&jobs, Some(&attempt()), &leases, &vec![], &request())));
    let mut other = reservations();
    other[0].attempt_id = "attempt-0".into();
    assert!(refused(check_stored_grant(&jobs, Some(&attempt()), &leases, &other, &request())));
    // an attempt other than the one the request names is not the request's attempt
    let mut twin = attempt();
    twin.attempt_id = "attempt-0".into();
    let mut twin_lease = lease();
    twin_lease.lease_id = "lease-0".into();
    twin_lease.attempt_id = "attempt-0".into();
    twin.lease_id = "lease-0".into();
    leases.get_or_issue(&twin_lease, 0).unwrap();
    let mut via_twin = request();
    via_twin.lease_id = "lease-0".into();
    assert!(refused(check_stored_grant(&jobs, Some(&twin), &leases, &reservations(), &via_twin)));
    assert!(refused(check_stored_grant(&jobs, Some(&twin), &leases, &reservations(), &request())));
    let mut missing_job = request();
    missing_job.job_id = "job-2".into();
    assert!(refused(check_stored_grant(&jobs, Some(&attempt()), &leases, &reservations(), &missing_job)));

    leases.mark_revoked("lease-1", 2_000).unwrap();
    let r = check_stored_grant(&jobs, Some(&attempt()), &leases, &reservations(), &request());
    assert!(refused(r.clone()));
    assert!(r.unwrap_err().message().starts_with("GRANT_REFUSED:"));
}

#[test]
fn a_grant_may_not_outlive_its_manifest() {
    assert_eq!(check_manifest_lifetime(&request(), 9_000), Ok(()));
    assert!(matches!(check_manifest_lifetime(&request(), 8_999), Err(StoredGrantError::Refused(_))));
}

#[test]
fn the_wire_duration_limit_is_never_truncated() {
    let mut l = lease();
    assert_eq!(wire_max_total_duration(&l), Ok(3600));
    l.max_total_duration_seconds = u32::MAX as u64;
    assert_eq!(wire_max_total_duration(&l), Ok(u32::MAX));
    l.max_total_duration_seconds = u32::MAX as u64 + 1;
    assert!(matches!(wire_max_total_duration(&l), Err(StoredGrantError::Storage(_))));
}

#[test]
fn the_nonce_input_frames_tag_grant_and_attempt() {
    let input = stored_grant_nonce_input("g", "at");
    let tag = b"gputeer/v1/grant-nonce";
    let mut expected = Vec::new();
    expected.extend_from_slice(&(tag.len() as u64).to_le_bytes());
    expected.extend_from_slice(tag);
    expected.extend_from_slice(&1u64.to_le_bytes());
    expected.extend_from_slice(b"g");
    expected.extend_from_slice(&2u64.to_le_bytes());
    expected.extend_from_slice(b"at");
    assert_eq!(input, expected);
    assert_ne!(stored_grant_nonce_input("g", "at"), stored_grant_nonce_input("ga", "t"));
}

#[test]
fn a_stored_grant_carries_the_request_and_the_stored_lease() {
    let g = stored_grant_fields(&request(), &lease(), 9_500, [4; 32]).unwrap();
    assert_eq!(g.schema_version, 2);
    assert!(g.lease_from_durable_store);
    assert_eq!(g.grant_id, "grant-1");
    assert_eq!(g.attempt_id, "attempt-1");
    assert_eq!(g.coordinator_device_id, "coord-1");
    assert_eq!(g.coordinator_term, 1);
    assert_eq!((g.issued_at_unix_ms, g.expires_at_unix_ms), (1_000, 9_000));
    assert_eq!(g.nonce, vec![0; 16]);
    assert_eq!(g.lease.fence_epoch, 3);
    assert_eq!(g.lease.member_node_ids, vec!["node-1".to_string()]);
    assert_eq!(g.manifest_hash, [4; 32]);
    assert!(matches!(stored_grant_fields(&request(), &lease(), 8_999, [4; 32]), Err(StoredGrantError::Refused(_))));
    let mut short = lease();
    short.expires_at_unix_ms = 8_000;
    assert!(matches!(stored_grant_fields(&request(), &short, 9_500, [4; 32]), Err(StoredGrantError::Refused(_))));
    let mut wide = lease();
    wide.max_total_duration_seconds = u32::MAX as u64 + 1;
    assert!(matches!(stored_grant_fields(&request(), &wide, 9_500, [4; 32]), Err(StoredGrantError::Storage(_))));
}
