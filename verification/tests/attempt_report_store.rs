use coordinator::attempt_report_store::{
    backfill_path, check_report_row, AttemptOutcome, AttemptReportCorruption, AttemptReportFacts,
    AttemptReportStoreError, BindingField, CoordinatorAttemptReportStore, ExitObservation,
    ReportBindingSource, StoredAttempt, StoredNodeReservation,
};
use coordinator::attempt_state::AttemptState;

const JOB_ID: &str = "job-1";
const ATTEMPT_ID: &str = "attempt-1";
const NODE_ID: &str = "node-1";

fn attempt(state: AttemptState) -> StoredAttempt {
    StoredAttempt {
        attempt_id: ATTEMPT_ID.into(),
        job_id: JOB_ID.into(),
        node_ids: vec![NODE_ID.into()],
        fence_epoch: 1,
        state,
    }
}

fn reservation() -> StoredNodeReservation {
    StoredNodeReservation {
        node_id: NODE_ID.into(),
        attempt_id: ATTEMPT_ID.into(),
        job_id: JOB_ID.into(),
    }
}

fn outcome_code(outcome: AttemptOutcome) -> i32 {
    match outcome {
        AttemptOutcome::Unspecified => 0,
        AttemptOutcome::Completed => 1,
        AttemptOutcome::Failed => 2,
        AttemptOutcome::Interrupted => 3,
        AttemptOutcome::Cancelled => 4,
        AttemptOutcome::StaleCompleted => 5,
        AttemptOutcome::OutputFinalizationFailed => 6,
    }
}

fn report(job_id: &str, attempt_id: &str, node_id: &str, fence_epoch: u64, outcome: AttemptOutcome) -> AttemptReportFacts {
    AttemptReportFacts {
        job_id: job_id.into(),
        attempt_id: attempt_id.into(),
        node_id: node_id.into(),
        fence_epoch,
        outcome: outcome_code(outcome),
        outcome_kind: Some(outcome),
        exit_observation: None,
    }
}

fn completed_report(fence_epoch: u64) -> AttemptReportFacts {
    report(JOB_ID, ATTEMPT_ID, NODE_ID, fence_epoch, AttemptOutcome::Completed)
}

/// The signed body of a report, and its hash, as the caller computes them.
fn body_of(r: &AttemptReportFacts, final_step: u8) -> (Vec<u8>, [u8; 32]) {
    let body = vec![r.outcome as u8, final_step, r.fence_epoch as u8];
    let mut hash = [0u8; 32];
    hash[0] = r.outcome as u8;
    hash[1] = final_step;
    hash[2] = r.fence_epoch as u8;
    (body, hash)
}

fn store_one(
    store: &mut CoordinatorAttemptReportStore,
    r: &AttemptReportFacts,
    signer: &str,
    final_step: u8,
    attempt: Option<&StoredAttempt>,
    reservation: Option<&StoredNodeReservation>,
) -> Result<coordinator::attempt_report_store::StoreAttemptReportResult, AttemptReportStoreError> {
    let (body, hash) = body_of(r, final_step);
    store.store_verified_terminal_report(r, None, signer, &body, hash, attempt, reservation)
}

#[test]
fn all_five_known_terminal_outcomes_are_stored() {
    for outcome in [
        AttemptOutcome::Completed,
        AttemptOutcome::Failed,
        AttemptOutcome::Interrupted,
        AttemptOutcome::Cancelled,
        AttemptOutcome::StaleCompleted,
    ] {
        let mut store = CoordinatorAttemptReportStore::new();
        let r = report(JOB_ID, ATTEMPT_ID, NODE_ID, 1, outcome);
        let result = store_one(&mut store, &r, NODE_ID, 10, Some(&attempt(AttemptState::Created)), Some(&reservation())).unwrap();
        assert!(result.created, "outcome {outcome:?}");
        assert_eq!(result.binding.report_body[0] as i32, outcome_code(outcome));
        assert!(store.get_report_binding(ATTEMPT_ID, NODE_ID).is_some());
    }
}

#[test]
fn each_outcome_writes_the_state_its_evidence_supports() {
    for (outcome, expected) in [
        (AttemptOutcome::Completed, Some(AttemptState::Completed)),
        (AttemptOutcome::StaleCompleted, Some(AttemptState::Completed)),
        (AttemptOutcome::Failed, Some(AttemptState::Failed)),
        (AttemptOutcome::Cancelled, Some(AttemptState::Cancelled)),
        (AttemptOutcome::Interrupted, None),
    ] {
        let mut store = CoordinatorAttemptReportStore::new();
        let r = report(JOB_ID, ATTEMPT_ID, NODE_ID, 1, outcome);
        let result = store_one(&mut store, &r, NODE_ID, 10, Some(&attempt(AttemptState::Created)), Some(&reservation())).unwrap();
        assert_eq!(result.attempt_state, expected, "{outcome:?}");
    }
}

#[test]
fn a_transition_outside_the_norm_table_is_refused() {
    let mut store = CoordinatorAttemptReportStore::new();
    let completed = completed_report(1);
    store_one(&mut store, &completed, NODE_ID, 10, Some(&attempt(AttemptState::Created)), Some(&reservation())).unwrap();
    let cancelled = report(JOB_ID, ATTEMPT_ID, NODE_ID, 1, AttemptOutcome::Cancelled);
    let error = store_one(&mut store, &cancelled, NODE_ID, 10, Some(&attempt(AttemptState::Completed)), Some(&reservation()))
        .expect_err("a finished attempt was overwritten as cancelled");
    assert!(matches!(error, AttemptReportStoreError::ReportConflict { .. }), "{error:?}");

    let mut fresh = CoordinatorAttemptReportStore::new();
    assert_eq!(
        store_one(&mut fresh, &cancelled, NODE_ID, 10, Some(&attempt(AttemptState::Completed)), Some(&reservation())),
        Err(AttemptReportStoreError::AttemptStateUnreachable {
            from: AttemptState::Completed,
            to: AttemptState::Cancelled
        })
    );
    assert!(fresh.get_report_binding(ATTEMPT_ID, NODE_ID).is_none());
}

#[test]
fn a_failure_of_a_running_attempt_moves_it_to_failed() {
    let mut store = CoordinatorAttemptReportStore::new();
    let failed = report(JOB_ID, ATTEMPT_ID, NODE_ID, 1, AttemptOutcome::Failed);
    let result = store_one(&mut store, &failed, NODE_ID, 10, Some(&attempt(AttemptState::Running)), Some(&reservation())).unwrap();
    assert_eq!(result.attempt_state, Some(AttemptState::Failed));
    let mut store = CoordinatorAttemptReportStore::new();
    let done = store_one(&mut store, &completed_report(1), NODE_ID, 10, Some(&attempt(AttemptState::Completed)), Some(&reservation())).unwrap();
    assert_eq!(done.attempt_state, None, "an attempt already in the proven state does not move");
}

#[test]
fn unspecified_and_unknown_outcomes_create_no_row() {
    for (code, kind) in [(0, Some(AttemptOutcome::Unspecified)), (99, None)] {
        let mut store = CoordinatorAttemptReportStore::new();
        let mut r = completed_report(1);
        r.outcome = code;
        r.outcome_kind = kind;
        assert_eq!(
            store_one(&mut store, &r, NODE_ID, 10, Some(&attempt(AttemptState::Created)), Some(&reservation())),
            Err(AttemptReportStoreError::InvalidOutcome(code))
        );
        assert!(store.get_report_binding(ATTEMPT_ID, NODE_ID).is_none());
    }
}

#[test]
fn signed_reports_that_break_the_field_rules_create_no_row() {
    for rule in ["v1 report uses new fields", "v1 report uses a new outcome", "combination rejected"] {
        let mut store = CoordinatorAttemptReportStore::new();
        let r = completed_report(1);
        let (body, hash) = body_of(&r, 10);
        assert_eq!(
            store.store_verified_terminal_report(
                &r,
                Some(rule.to_string()),
                NODE_ID,
                &body,
                hash,
                Some(&attempt(AttemptState::Created)),
                Some(&reservation())
            ),
            Err(AttemptReportStoreError::ReportRule(rule.to_string()))
        );
        assert!(store.get_report_binding(ATTEMPT_ID, NODE_ID).is_none());
    }
}

#[test]
fn a_v2_output_finalization_failure_is_stored_and_replays() {
    let mut store = CoordinatorAttemptReportStore::new();
    let mut r = report(JOB_ID, ATTEMPT_ID, NODE_ID, 1, AttemptOutcome::OutputFinalizationFailed);
    r.exit_observation = Some(ExitObservation::ObservedWithCode);
    let first = store_one(&mut store, &r, NODE_ID, 10, Some(&attempt(AttemptState::Created)), Some(&reservation())).unwrap();
    assert!(first.created);
    assert_eq!(first.attempt_state, Some(AttemptState::Failed));
    let again = store_one(&mut store, &r, NODE_ID, 10, Some(&attempt(AttemptState::Failed)), Some(&reservation())).unwrap();
    assert!(!again.created);
    assert_eq!(again.binding, first.binding);
}

#[test]
fn a_stored_body_that_breaks_the_field_rules_fails_closed() {
    let mut store = CoordinatorAttemptReportStore::new();
    let r = completed_report(1);
    let stored = store_one(&mut store, &r, NODE_ID, 10, Some(&attempt(AttemptState::Created)), Some(&reservation())).unwrap();
    let row = stored.binding.to_row();
    let (_, hash) = body_of(&r, 10);
    assert_eq!(
        check_report_row(&row, &hash, Some(&r), false, Some(&attempt(AttemptState::Completed))),
        Err(AttemptReportStoreError::Corrupt {
            attempt_id: ATTEMPT_ID.into(),
            node_id: NODE_ID.into(),
            kind: AttemptReportCorruption::ReportRule,
        })
    );
    assert_eq!(
        check_report_row(&row, &hash, Some(&r), true, Some(&attempt(AttemptState::Completed))),
        Ok(stored.binding)
    );
}

#[test]
fn attempt_report_store_wrong_job_attempt_and_stale_fence_create_no_row() {
    let other_job = report("job-other", ATTEMPT_ID, NODE_ID, 1, AttemptOutcome::Completed);
    let other_attempt = report(JOB_ID, "attempt-other", NODE_ID, 1, AttemptOutcome::Completed);
    for (r, found, expected) in [
        (other_job, true, AttemptReportStoreError::BindingMismatch(BindingField::JobId)),
        (
            other_attempt,
            false,
            AttemptReportStoreError::AttemptNotFound {
                attempt_id: "attempt-other".into(),
            },
        ),
        (completed_report(0), true, AttemptReportStoreError::BindingMismatch(BindingField::FenceEpoch)),
    ] {
        let mut store = CoordinatorAttemptReportStore::new();
        let a = attempt(AttemptState::Created);
        let looked_up = if found { Some(&a) } else { None };
        assert_eq!(store_one(&mut store, &r, NODE_ID, 10, looked_up, Some(&reservation())), Err(expected));
        assert!(store.get_report_binding(&r.attempt_id, NODE_ID).is_none());
    }
}

#[test]
fn attempt_node_and_verified_signer_are_bound_to_durable_owner() {
    let mut store = CoordinatorAttemptReportStore::new();
    let mut moved = attempt(AttemptState::Created);
    moved.node_ids = vec!["node-other".into()];
    assert_eq!(
        store_one(&mut store, &completed_report(1), NODE_ID, 10, Some(&moved), Some(&reservation())),
        Err(AttemptReportStoreError::BindingMismatch(BindingField::NodeId))
    );
    assert_eq!(
        store_one(&mut store, &completed_report(1), "node-other", 10, Some(&attempt(AttemptState::Created)), Some(&reservation())),
        Err(AttemptReportStoreError::BindingMismatch(BindingField::SignerId))
    );
    assert!(store.get_report_binding(ATTEMPT_ID, NODE_ID).is_none());
}

#[test]
fn attempt_report_store_missing_or_different_reservation_owner_creates_no_row() {
    let mut store = CoordinatorAttemptReportStore::new();
    let stored = store_one(&mut store, &completed_report(1), NODE_ID, 10, Some(&attempt(AttemptState::Created)), None).unwrap();
    assert!(stored.created);
    assert_eq!(stored.binding.bound_via, ReportBindingSource::AssignmentRecord);
    assert_eq!(
        store.get_report_binding(ATTEMPT_ID, NODE_ID).expect("stored").bound_via,
        ReportBindingSource::AssignmentRecord
    );

    let mut store = CoordinatorAttemptReportStore::new();
    let mut other_job = reservation();
    other_job.job_id = "job-other".into();
    assert_eq!(
        store_one(&mut store, &completed_report(1), NODE_ID, 10, Some(&attempt(AttemptState::Created)), Some(&other_job)),
        Err(AttemptReportStoreError::BindingMismatch(BindingField::ReservationJobId))
    );
    assert!(store.get_report_binding(ATTEMPT_ID, NODE_ID).is_none());
}

#[test]
fn a_late_report_still_has_to_match_the_assignment_record() {
    let mut store = CoordinatorAttemptReportStore::new();
    assert_eq!(
        store_one(&mut store, &completed_report(2), NODE_ID, 10, Some(&attempt(AttemptState::Created)), None),
        Err(AttemptReportStoreError::BindingMismatch(BindingField::FenceEpoch))
    );
    assert!(store.get_report_binding(ATTEMPT_ID, NODE_ID).is_none());
}

#[test]
fn a_report_with_its_current_reservation_records_the_reservation_binding() {
    let mut store = CoordinatorAttemptReportStore::new();
    let stored = store_one(&mut store, &completed_report(1), NODE_ID, 10, Some(&attempt(AttemptState::Created)), Some(&reservation())).unwrap();
    assert_eq!(stored.binding.bound_via, ReportBindingSource::CurrentReservation);
}

#[test]
fn attempt_report_store_exact_replay_returns_first_row_and_changed_body_or_signature_conflicts() {
    let mut store = CoordinatorAttemptReportStore::new();
    let r = completed_report(1);
    let first = store_one(&mut store, &r, NODE_ID, 10, Some(&attempt(AttemptState::Created)), Some(&reservation())).unwrap();
    let replay = store_one(&mut store, &r, NODE_ID, 10, Some(&attempt(AttemptState::Completed)), Some(&reservation())).unwrap();
    assert!(first.created);
    assert!(!replay.created);
    assert_eq!(replay.binding, first.binding);

    let changed_body = report(JOB_ID, ATTEMPT_ID, NODE_ID, 1, AttemptOutcome::Failed);
    assert!(matches!(
        store_one(&mut store, &changed_body, NODE_ID, 11, Some(&attempt(AttemptState::Completed)), Some(&reservation())),
        Err(AttemptReportStoreError::ReportConflict { .. })
    ));
    let (body, hash) = body_of(&r, 10);
    assert!(matches!(
        store.store_verified_terminal_report(&r, None, "node-1-other-key", &body, hash, Some(&attempt(AttemptState::Completed)), Some(&reservation())),
        Err(AttemptReportStoreError::ReportConflict { .. })
    ));
    assert_eq!(store.get_report_binding(ATTEMPT_ID, NODE_ID), Some(first.binding));
}

#[test]
fn corrupt_body_hash_identity_signer_and_fence_fail_closed() {
    let r = completed_report(1);
    let mut store = CoordinatorAttemptReportStore::new();
    let stored = store_one(&mut store, &r, NODE_ID, 10, Some(&attempt(AttemptState::Created)), Some(&reservation())).unwrap();
    let (_, hash) = body_of(&r, 10);
    let done = attempt(AttemptState::Completed);
    let corrupt = |kind| {
        Err::<coordinator::attempt_report_store::StoredAttemptReportBinding, _>(AttemptReportStoreError::Corrupt {
            attempt_id: ATTEMPT_ID.into(),
            node_id: NODE_ID.into(),
            kind,
        })
    };

    let mut row = stored.binding.to_row();
    row.report_body = vec![];
    assert_eq!(check_report_row(&row, &hash, Some(&r), true, Some(&done)), corrupt(AttemptReportCorruption::EmptyBody));

    let row = stored.binding.to_row();
    assert_eq!(check_report_row(&row, &hash, None, true, Some(&done)), corrupt(AttemptReportCorruption::UndecodableBody));
    assert_eq!(check_report_row(&row, &[9u8; 32], Some(&r), true, Some(&done)), corrupt(AttemptReportCorruption::HashMismatch));

    let mut row = stored.binding.to_row();
    row.report_hash = vec![1, 2, 3];
    assert_eq!(check_report_row(&row, &hash, Some(&r), true, Some(&done)), corrupt(AttemptReportCorruption::HashEncoding));

    let row = stored.binding.to_row();
    let mut changed = r.clone();
    changed.job_id = "job-other".into();
    assert_eq!(check_report_row(&row, &hash, Some(&changed), true, Some(&done)), corrupt(AttemptReportCorruption::JobIdMismatch));
    let mut changed = r.clone();
    changed.attempt_id = "attempt-other".into();
    assert_eq!(check_report_row(&row, &hash, Some(&changed), true, Some(&done)), corrupt(AttemptReportCorruption::AttemptIdMismatch));
    let mut changed = r.clone();
    changed.node_id = "node-other".into();
    assert_eq!(check_report_row(&row, &hash, Some(&changed), true, Some(&done)), corrupt(AttemptReportCorruption::NodeIdMismatch));

    let mut row = stored.binding.to_row();
    row.verified_signer_id = "node-other".into();
    assert_eq!(check_report_row(&row, &hash, Some(&r), true, Some(&done)), corrupt(AttemptReportCorruption::SignerIdMismatch));

    let row = stored.binding.to_row();
    let mut changed = r.clone();
    changed.fence_epoch = 2;
    assert_eq!(check_report_row(&row, &hash, Some(&changed), true, Some(&done)), corrupt(AttemptReportCorruption::FenceEpochMismatch));

    let mut row = stored.binding.to_row();
    row.bound_via = "elsewhere".into();
    assert_eq!(check_report_row(&row, &hash, Some(&r), true, Some(&done)), corrupt(AttemptReportCorruption::BindingSource));

    assert_eq!(check_report_row(&row, &hash, Some(&r), true, None), corrupt(AttemptReportCorruption::MissingAttempt));
}

#[test]
fn an_old_row_stored_before_4c_is_backfilled_on_open() {
    let mut stored = completed_report(1);
    stored.exit_observation = Some(ExitObservation::ObservedWithCode);
    let path = backfill_path(Some(&stored)).expect("a completed report moves the attempt");
    assert_eq!(path.last(), Some(&AttemptState::Completed));
    let mut failed = report(JOB_ID, ATTEMPT_ID, NODE_ID, 1, AttemptOutcome::Failed);
    failed.exit_observation = Some(ExitObservation::NotObserved);
    let path = backfill_path(Some(&failed)).expect("an unobserved failure still fails");
    assert!(!path.contains(&AttemptState::Running), "no run is invented: {path:?}");
    assert_eq!(path.last(), Some(&AttemptState::Failed));
    assert_eq!(backfill_path(Some(&report(JOB_ID, ATTEMPT_ID, NODE_ID, 1, AttemptOutcome::Interrupted))), None);
    assert_eq!(backfill_path(None), None, "an undecodable body is left to the corruption check");
}

#[test]
fn attempt_report_store_errors_read_as_their_text() {
    assert_eq!(
        AttemptReportStoreError::InvalidOutcome(-3).message(),
        "AttemptReport outcome is not a known terminal value: -3"
    );
    assert_eq!(
        AttemptReportStoreError::InvalidOutcome(i32::MIN).message(),
        "AttemptReport outcome is not a known terminal value: -2147483648"
    );
    assert_eq!(
        AttemptReportStoreError::Corrupt {
            attempt_id: "a".into(),
            node_id: "n".into(),
            kind: AttemptReportCorruption::FenceEpochMismatch,
        }
        .message(),
        "durable AttemptReport is corrupt: attempt=a, node=n, kind=FenceEpochMismatch"
    );
    assert_eq!(
        AttemptReportStoreError::AttemptStateUnreachable { from: AttemptState::Created, to: AttemptState::Failed }.message(),
        "the terminal state this report proves cannot be reached along the normative table: Created -> Failed"
    );
    assert_eq!(
        AttemptReportStoreError::BindingMismatch(BindingField::ReservationNodeId).message(),
        "AttemptReport durable binding mismatch: ReservationNodeId"
    );
}
