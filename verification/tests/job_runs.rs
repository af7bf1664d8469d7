use coordinator::attempt_state::AttemptState;
use coordinator::job_store::{
    job_shape_ok, CoordinatorJobStore, JobListing, JobState, JobStoreError, RunTerminal, StoredJob,
};

/// A Job the staging step reserved at 400, as read back from rows.
fn staged(job_id: &str, queued_at: u64) -> StoredJob {
    StoredJob {
        job_id: job_id.to_string(),
        submitter_device_id: "submitter-1".to_string(),
        manifest_hash: [7; 32],
        state: JobState::Staging,
        submitted_at_unix_ms: 100,
        planning_at_unix_ms: Some(200),
        queued_at_unix_ms: Some(queued_at),
        staging_at_unix_ms: Some(400),
        deadline_unix_ms: Some(10_000),
        max_queue_duration_ms: Some(1_000),
        plan_id: Some("plan-1".to_string()),
        queue_failure: None,
        failed_at_unix_ms: None,
        running_at_unix_ms: None,
        run_terminal: None,
        worker_reported_finished_at_unix_ms: None,
        requeue_count: 0,
        resume_checkpoint: None,
        revision: 4,
    }
}

fn store_with(jobs: Vec<StoredJob>) -> CoordinatorJobStore {
    let mut store = CoordinatorJobStore::new();
    let mut key: u8 = 1;
    for job in jobs {
        assert!(job_shape_ok(&job));
        store.restore(job, [key; 16]).unwrap();
        key += 1;
    }
    store
}

fn running_store() -> CoordinatorJobStore {
    let mut store = store_with(vec![staged("job-1", 300)]);
    assert_eq!(store.record_staging_complete("job-1", "attempt-1", Some("attempt-1"), 500), Ok(true));
    store
}

#[test]
fn first_progress_moves_staging_to_running_once() {
    let mut store = running_store();
    let job = store.get("job-1").unwrap().unwrap();
    assert_eq!(job.state, JobState::Running);
    assert_eq!(job.running_at_unix_ms, Some(500));
    assert_eq!(job.revision, 5);
    // a second signal changes nothing
    assert_eq!(store.record_staging_complete("job-1", "attempt-1", Some("attempt-1"), 900), Ok(true));
    assert_eq!(store.get("job-1").unwrap().unwrap(), job);
}

#[test]
fn progress_of_a_stale_attempt_does_not_move_the_job() {
    let mut store = store_with(vec![staged("job-1", 300)]);
    assert_eq!(store.record_staging_complete("job-1", "attempt-old", Some("attempt-2"), 500), Ok(false));
    assert_eq!(store.record_staging_complete("job-1", "attempt-1", None, 500), Ok(false));
    assert_eq!(store.get("job-1").unwrap().unwrap().state, JobState::Staging);
}

#[test]
fn progress_before_the_reservation_time_is_a_clock_rollback() {
    let mut store = store_with(vec![staged("job-1", 300)]);
    assert_eq!(
        store.record_staging_complete("job-1", "attempt-1", Some("attempt-1"), 399),
        Err(JobStoreError::ClockRollback { earlier_unix_ms: 399, later_unix_ms: 400 })
    );
    assert_eq!(store.get("job-1").unwrap().unwrap().state, JobState::Staging);
    assert_eq!(
        store.record_staging_complete("missing", "attempt-1", Some("attempt-1"), 500),
        Err(JobStoreError::NotFound)
    );
}

#[test]
fn an_ack_is_checked_against_the_current_attempt_without_moving_the_job() {
    let store = store_with(vec![staged("job-1", 300)]);
    assert_eq!(store.ack_is_for_current_attempt("job-1", "attempt-1", Some("attempt-1"), 450), Ok(true));
    assert_eq!(store.ack_is_for_current_attempt("job-1", "attempt-0", Some("attempt-1"), 450), Ok(false));
    assert_eq!(
        store.ack_is_for_current_attempt("job-1", "attempt-1", Some("attempt-1"), 10),
        Err(JobStoreError::ClockRollback { earlier_unix_ms: 10, later_unix_ms: 400 })
    );
    assert_eq!(store.ack_is_for_current_attempt("nope", "attempt-1", Some("attempt-1"), 450), Err(JobStoreError::NotFound));
    assert_eq!(store.get("job-1").unwrap().unwrap().state, JobState::Staging);
}

#[test]
fn a_node_lost_while_staging_returns_the_job_to_its_queue_place() {
    let mut store = store_with(vec![staged("job-1", 300)]);
    let next = store.requeue_after_node_lost("job-1", None, 777).unwrap();
    assert_eq!(next.state, JobState::Queued);
    assert_eq!(next.queued_at_unix_ms, Some(300));
    assert_eq!(next.staging_at_unix_ms, None);
    assert_eq!(next.requeue_count, 1);
    assert_eq!(next.resume_checkpoint, None);
    assert_eq!(next.revision, 5);
    assert_eq!(store.get("job-1").unwrap().unwrap(), next);
}

#[test]
fn a_node_lost_while_running_resumes_from_the_checkpoint() {
    let mut store = running_store();
    let next = store.requeue_after_node_lost("job-1", Some(vec![1, 2, 3]), 777).unwrap();
    assert_eq!(next.state, JobState::Queued);
    assert_eq!(next.running_at_unix_ms, None);
    assert_eq!(next.resume_checkpoint, Some(vec![1, 2, 3]));
    assert_eq!(next.requeue_count, 1);
    assert_eq!(next.run_terminal, None);
}

#[test]
fn a_node_lost_while_running_without_checkpoint_fails_the_job() {
    let mut store = running_store();
    let next = store.requeue_after_node_lost("job-1", None, 777).unwrap();
    assert_eq!(next.state, JobState::Failed);
    assert_eq!(next.run_terminal, Some(RunTerminal::NoCommittedCheckpoint));
    assert_eq!(next.worker_reported_finished_at_unix_ms, Some(777));
    assert_eq!(next.requeue_count, 0);
    // a queued Job is not a run state
    let mut queued = store_with(vec![]);
    assert_eq!(queued.requeue_after_node_lost("job-1", None, 1), Err(JobStoreError::NotFound));
    let again = store.requeue_after_node_lost("job-1", None, 778);
    assert_eq!(again, Err(JobStoreError::InvalidTransition { from: JobState::Failed, to: JobState::Queued }));
}

#[test]
fn an_owner_preempt_pauses_the_running_job_and_keeps_it_schedulable() {
    let mut store = running_store();
    let paused = store.pause_for_owner_preempt("job-1", Some(vec![9])).unwrap();
    assert_eq!(paused.state, JobState::Paused);
    assert_eq!(paused.requeue_count, 1);
    assert_eq!(paused.resume_checkpoint, Some(vec![9]));
    let schedulable = store.list_schedulable().unwrap();
    assert_eq!(schedulable.len(), 1);
    assert_eq!(schedulable[0].job_id, "job-1");
    assert!(store.list_queued().unwrap().is_empty());
    // a paused Job cannot be paused again
    assert_eq!(
        store.pause_for_owner_preempt("job-1", None),
        Err(JobStoreError::InvalidTransition { from: JobState::Paused, to: JobState::Paused })
    );
}

#[test]
fn an_attempt_end_follows_the_normative_path() {
    // completed while staging: through RUNNING to COMPLETED
    let mut store = store_with(vec![staged("job-1", 300)]);
    let done = store
        .follow_attempt_terminal("job-1", "attempt-1", AttemptState::Completed, true, 900, Some("attempt-1"))
        .unwrap()
        .unwrap();
    assert_eq!(done.state, JobState::Completed);
    assert_eq!(done.run_terminal, Some(RunTerminal::AttemptCompleted));
    assert_eq!(done.worker_reported_finished_at_unix_ms, Some(900));

    // failed before running: STAGING -> FAILED
    let mut store = store_with(vec![staged("job-2", 300)]);
    let failed = store
        .follow_attempt_terminal("job-2", "attempt-1", AttemptState::Failed, false, 900, Some("attempt-1"))
        .unwrap()
        .unwrap();
    assert_eq!(failed.state, JobState::Failed);
    assert_eq!(failed.run_terminal, Some(RunTerminal::StagingFailed));

    // cancelled while already running: RUNNING -> FAILED
    let mut store = running_store();
    let failed = store
        .follow_attempt_terminal("job-1", "attempt-1", AttemptState::Cancelled, false, 900, Some("attempt-1"))
        .unwrap()
        .unwrap();
    assert_eq!(failed.run_terminal, Some(RunTerminal::UnrecoverableError));
}

#[test]
fn an_attempt_end_of_a_superseded_attempt_changes_nothing() {
    let mut store = running_store();
    let before = store.get("job-1").unwrap().unwrap();
    assert_eq!(
        store.follow_attempt_terminal("job-1", "attempt-1", AttemptState::Completed, true, 900, Some("attempt-2")),
        Ok(None)
    );
    assert_eq!(
        store.follow_attempt_terminal("job-1", "attempt-1", AttemptState::Running, true, 900, Some("attempt-1")),
        Ok(None)
    );
    assert_eq!(store.get("job-1").unwrap().unwrap(), before);
}

#[test]
fn run_state_listing_is_by_job_id() {
    let store = store_with(vec![staged("job-b", 300), staged("job-a", 350)]);
    let listed = store.list_in_run_states().unwrap();
    let ids: Vec<&str> = listed.iter().map(|j| j.job_id.as_str()).collect();
    assert_eq!(ids, vec!["job-a", "job-b"]);
    assert_eq!(store.list(JobListing::InRun).unwrap(), listed);
}
