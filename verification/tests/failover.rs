use coordinator::attempt_report_store::StoredAttempt;
use coordinator::attempt_state::AttemptState;
use coordinator::failover::{
    latest_attempt, check_operator_release, choose_resume_point, fail_over_job, is_past_grace, preempt_by_owner,
    reclaimed_at, AttemptFacts, CheckpointCandidate, CheckpointFacts, FailoverOutcome, LatestAttempt,
    NodeReservation, ResumePoint,
};
use coordinator::job_store::{AcceptedJobSubmission, CoordinatorJobStore, JobState, RunTerminal, StoredJob};
use coordinator::lease_store::{CoordinatorLeaseStore, StoredLease};

fn job_in(state: JobState) -> StoredJob {
    StoredJob {
        job_id: "job-1".into(),
        submitter_device_id: "submitter-1".into(),
        manifest_hash: [7; 32],
        state,
        submitted_at_unix_ms: 100,
        planning_at_unix_ms: Some(110),
        queued_at_unix_ms: Some(120),
        staging_at_unix_ms: Some(130),
        deadline_unix_ms: None,
        max_queue_duration_ms: None,
        plan_id: Some("plan-1".into()),
        queue_failure: None,
        failed_at_unix_ms: None,
        running_at_unix_ms: if state == JobState::Running { Some(140) } else { None },
        run_terminal: None,
        worker_reported_finished_at_unix_ms: None,
        requeue_count: 0,
        resume_checkpoint: None,
        revision: 4,
    }
}

fn lease() -> StoredLease {
    StoredLease {
        lease_id: "lease-1".into(),
        job_id: "job-1".into(),
        attempt_id: "attempt-1".into(),
        holder_node_id: "node-1".into(),
        fence_epoch: 1,
        expires_at_unix_ms: 1_000,
        issuing_coordinator_id: "coord-1".into(),
        coordinator_term: 1,
        issued_at_unix_ms: 100,
        renew_after_unix_ms: 500,
        max_total_duration_seconds: 3600,
        revoked_at_unix_ms: None,
    }
}

fn latest() -> LatestAttempt {
    LatestAttempt {
        attempt_id: "attempt-1".into(),
        state: AttemptState::Running,
        lease_id: "lease-1".into(),
        node_ids: vec!["node-1".into()],
    }
}

fn stores(state: JobState) -> (CoordinatorJobStore, CoordinatorLeaseStore) {
    let mut jobs = CoordinatorJobStore::new();
    jobs.restore(job_in(state), [1; 16]).unwrap();
    let mut leases = CoordinatorLeaseStore::new();
    leases.get_or_issue(&lease(), 0).unwrap();
    (jobs, leases)
}

#[test]
fn the_grace_period_is_inclusive_and_saturates() {
    assert!(!is_past_grace(1_000, 500, 1_500));
    assert!(is_past_grace(1_000, 500, 1_501));
    assert!(!is_past_grace(u64::MAX - 1, 10, u64::MAX));
}

#[test]
fn a_lease_within_grace_is_not_taken_over() {
    let (mut jobs, mut leases) = stores(JobState::Running);
    assert_eq!(fail_over_job(&mut jobs, &mut leases, "job-1", Some(&latest()), 500, 1_500, None), Ok(None));
    assert_eq!(jobs.get("job-1").unwrap().unwrap().state, JobState::Running);
    assert_eq!(leases.get("lease-1").unwrap().unwrap().revoked_at_unix_ms, None);
}

#[test]
fn a_lost_staging_job_goes_back_to_the_queue_and_its_lease_is_revoked() {
    let (mut jobs, mut leases) = stores(JobState::Staging);
    let outcome = fail_over_job(&mut jobs, &mut leases, "job-1", Some(&latest()), 500, 2_000, None)
        .unwrap()
        .unwrap();
    assert_eq!(
        outcome,
        FailoverOutcome::Requeued {
            job_id: "job-1".into(),
            lost_attempt_id: "attempt-1".into(),
            lost_node_id: "node-1".into(),
            was_running: false,
            resume_checkpoint_id: None,
            resume_step: None,
        }
    );
    let job = jobs.get("job-1").unwrap().unwrap();
    assert_eq!(job.state, JobState::Queued);
    assert_eq!(job.requeue_count, 1);
    assert_eq!(leases.get("lease-1").unwrap().unwrap().revoked_at_unix_ms, Some(2_000));
    assert_eq!(
        outcome.line(),
        "FAILOVER_REQUEUED job_id=job-1 lost_attempt=attempt-1 lost_node=node-1 was_running=false resume_checkpoint=- resume_step=-"
    );
}

#[test]
fn a_lost_running_job_resumes_from_its_checkpoint() {
    let (mut jobs, mut leases) = stores(JobState::Running);
    let resume = ResumePoint {
        checkpoint_id: "ckpt-9".into(),
        step: 42,
        body: vec![1, 2, 3],
    };
    let outcome = fail_over_job(&mut jobs, &mut leases, "job-1", Some(&latest()), 500, 2_000, Some(resume))
        .unwrap()
        .unwrap();
    assert_eq!(
        outcome.line(),
        "FAILOVER_REQUEUED job_id=job-1 lost_attempt=attempt-1 lost_node=node-1 was_running=true resume_checkpoint=ckpt-9 resume_step=42"
    );
    let job = jobs.get("job-1").unwrap().unwrap();
    assert_eq!(job.state, JobState::Queued);
    assert_eq!(job.resume_checkpoint, Some(vec![1, 2, 3]));
}

#[test]
fn a_lost_running_job_without_a_checkpoint_fails() {
    let (mut jobs, mut leases) = stores(JobState::Running);
    let outcome = fail_over_job(&mut jobs, &mut leases, "job-1", Some(&latest()), 500, 2_000, None)
        .unwrap()
        .unwrap();
    assert_eq!(
        outcome.line(),
        "FAILOVER_FAILED job_id=job-1 lost_attempt=attempt-1 lost_node=node-1 reason=NO_COMMITTED_CHECKPOINT"
    );
    let job = jobs.get("job-1").unwrap().unwrap();
    assert_eq!(job.state, JobState::Failed);
    assert_eq!(job.run_terminal, Some(RunTerminal::NoCommittedCheckpoint));
    assert_eq!(leases.get("lease-1").unwrap().unwrap().revoked_at_unix_ms, Some(2_000));
}

#[test]
fn a_missing_lease_is_an_error_that_changes_nothing() {
    let mut jobs = CoordinatorJobStore::new();
    jobs.restore(job_in(JobState::Running), [1; 16]).unwrap();
    let mut leases = CoordinatorLeaseStore::new();
    assert!(fail_over_job(&mut jobs, &mut leases, "job-1", Some(&latest()), 500, 2_000, None).is_err());
    assert_eq!(jobs.get("job-1").unwrap().unwrap().state, JobState::Running);
}

#[test]
fn a_finished_attempt_or_queued_job_is_not_taken_over() {
    let (mut jobs, mut leases) = stores(JobState::Running);
    let mut done = latest();
    done.state = AttemptState::Completed;
    assert_eq!(fail_over_job(&mut jobs, &mut leases, "job-1", Some(&done), 500, 2_000, None), Ok(None));
    assert_eq!(fail_over_job(&mut jobs, &mut leases, "job-1", None, 500, 2_000, None), Ok(None));
    assert_eq!(fail_over_job(&mut jobs, &mut leases, "job-x", Some(&latest()), 500, 2_000, None), Ok(None));
    let mut queued = CoordinatorJobStore::new();
    queued
        .submit_accepted(
            &AcceptedJobSubmission {
                idempotency_key: [2; 16],
                job_id: "job-1".into(),
                submitter_device_id: "s".into(),
                manifest_hash: [0; 32],
                deadline_unix_ms: None,
                max_queue_duration_ms: None,
            },
            1,
        )
        .unwrap();
    assert_eq!(fail_over_job(&mut queued, &mut leases, "job-1", Some(&latest()), 500, 2_000, None), Ok(None));
}

fn candidate(id: &str, fence: u64, step: u64) -> CheckpointCandidate {
    CheckpointCandidate {
        checkpoint_id: id.into(),
        manifest: Some(CheckpointFacts {
            checkpoint_id: id.into(),
            job_id: "job-1".into(),
            attempt_id: "attempt-1".into(),
            fence_epoch: fence,
            step,
            producer_node_id: "node-1".into(),
        }),
        signature_ok: true,
        attempt: Some(AttemptFacts {
            job_id: "job-1".into(),
            fence_epoch: fence,
            node_ids: vec!["node-1".into()],
        }),
        on_disk_mismatch: None,
        body: vec![step as u8],
    }
}

#[test]
fn the_latest_trusted_checkpoint_is_chosen_and_every_skip_is_noted() {
    let mut unsigned = candidate("c-unsigned", 9, 9);
    unsigned.signature_ok = false;
    let mut broken = candidate("c-broken", 9, 8);
    broken.on_disk_mismatch = Some("hash of shard 2 differs".into());
    let candidates = vec![candidate("c-1", 1, 50), candidate("c-2", 2, 10), unsigned, broken, candidate("c-3", 2, 10)];
    let mut notes = vec!["before".to_string()];
    let chosen = choose_resume_point(&candidates, "job-1", &mut notes);
    assert_eq!(chosen, Some(1), "the greatest (fence, step), the first of equals");
    assert_eq!(
        notes,
        vec![
            "before".to_string(),
            "FAILOVER_CHECKPOINT_SKIPPED job_id=job-1 checkpoint_id=c-unsigned reason=producer signature does not verify"
                .to_string(),
            "FAILOVER_CHECKPOINT_SKIPPED job_id=job-1 checkpoint_id=c-broken reason=hash of shard 2 differs".to_string(),
        ]
    );
}

#[test]
fn no_trusted_checkpoint_is_none() {
    let mut other_job = candidate("c-1", 1, 1);
    other_job.manifest.as_mut().unwrap().job_id = "job-2".into();
    let mut undecodable = candidate("c-2", 1, 1);
    undecodable.manifest = None;
    let mut notes = Vec::new();
    assert_eq!(choose_resume_point(&vec![other_job, undecodable], "job-1", &mut notes), None);
    assert_eq!(notes.len(), 2);
}

fn reservation() -> NodeReservation {
    NodeReservation {
        node_id: "node-1".into(),
        attempt_id: "attempt-1".into(),
        job_id: "job-1".into(),
        selected_gpu_ids: vec!["gpu-0".into()],
    }
}

#[test]
fn an_operator_release_needs_a_statement_and_a_job_that_moved_on() {
    let r = reservation();
    let released = check_operator_release("checked the rack", "node-1", Some(&r), Some(JobState::Queued), Some("attempt-1"))
        .unwrap();
    assert_eq!(released.released_gpu_ids, vec!["gpu-0".to_string()]);
    assert!(check_operator_release("checked", "node-1", Some(&r), Some(JobState::Running), Some("attempt-2")).is_ok());
    let refused = check_operator_release("checked", "node-1", Some(&r), Some(JobState::Running), Some("attempt-1"))
        .unwrap_err();
    assert!(refused.starts_with("RELEASE_REFUSED:"), "{refused}");
    assert!(check_operator_release("  ", "node-1", Some(&r), Some(JobState::Queued), None).is_err());
    assert!(check_operator_release("checked", "node-1", None, Some(JobState::Queued), None).is_err());
    assert!(check_operator_release("checked", "node-1", Some(&r), None, None).is_err());
    for refused in [
        check_operator_release("  ", "node-1", Some(&r), Some(JobState::Queued), None),
        check_operator_release("checked", "node-1", None, Some(JobState::Queued), None),
        check_operator_release("checked", "node-1", Some(&r), None, None),
    ] {
        assert!(refused.unwrap_err().starts_with("RELEASE_REFUSED: "));
    }
}

fn attempt(id: &str, job: &str, fence: u64) -> StoredAttempt {
    StoredAttempt {
        attempt_id: id.into(),
        job_id: job.into(),
        node_ids: vec!["node-1".into()],
        fence_epoch: fence,
        state: AttemptState::Running,
    }
}

#[test]
fn the_latest_attempt_has_the_highest_fence_then_the_greatest_id() {
    let attempts = vec![
        attempt("attempt-b", "job-1", 2),
        attempt("attempt-z", "job-1", 1),
        attempt("attempt-c", "job-1", 2),
        attempt("attempt-y", "job-2", 9),
    ];
    assert_eq!(latest_attempt(&attempts, "job-1"), Some(2));
    assert_eq!(latest_attempt(&attempts, "job-2"), Some(3));
    assert_eq!(latest_attempt(&attempts, "job-3"), None);
}

#[test]
fn a_reclaim_never_goes_back_in_time() {
    assert_eq!(reclaimed_at(None, 100), 100);
    assert_eq!(reclaimed_at(Some(50), 100), 100);
    assert_eq!(reclaimed_at(Some(150), 100), 150);
}

#[test]
fn an_owner_preemption_pauses_the_running_job_and_revokes_its_lease() {
    let (mut jobs, mut leases) = stores(JobState::Running);
    let resume = ResumePoint {
        checkpoint_id: "ckpt-1".into(),
        step: 7,
        body: vec![9],
    };
    let done = preempt_by_owner(
        &mut jobs,
        &mut leases,
        "job-1",
        "attempt-1",
        "node-1",
        Some("attempt-1"),
        Some("lease-1"),
        Some(resume),
        Some(3_000),
        2_000,
    )
    .unwrap()
    .unwrap();
    assert_eq!(done.line, "OWNER_PREEMPTED job_id=job-1 attempt_id=attempt-1 node_id=node-1 resume_step=7");
    assert_eq!(done.reclaimed_at_unix_ms, 3_000);
    let job = jobs.get("job-1").unwrap().unwrap();
    assert_eq!(job.state, JobState::Paused);
    assert_eq!(job.resume_checkpoint, Some(vec![9]));
    assert_eq!(leases.get("lease-1").unwrap().unwrap().revoked_at_unix_ms, Some(2_000));

    let again = preempt_by_owner(
        &mut jobs, &mut leases, "job-1", "attempt-1", "node-1", Some("attempt-1"), Some("lease-1"), None, None, 2_500,
    );
    assert_eq!(again, Ok(None), "a paused job is not preempted again");
}

#[test]
fn a_preemption_of_an_older_attempt_does_nothing() {
    let (mut jobs, mut leases) = stores(JobState::Running);
    let r = preempt_by_owner(
        &mut jobs, &mut leases, "job-1", "attempt-0", "node-1", Some("attempt-1"), Some("lease-1"), None, None, 2_000,
    );
    assert_eq!(r, Ok(None));
    assert_eq!(jobs.get("job-1").unwrap().unwrap().state, JobState::Running);
}
