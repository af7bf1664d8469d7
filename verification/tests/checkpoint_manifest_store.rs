use coordinator::attempt_report_store::{StoredAttempt, StoredNodeReservation};
use coordinator::attempt_state::AttemptState;
use coordinator::checkpoint_manifest_store::{
    check_manifest_row, AttemptLookup, CheckpointBindingField, CheckpointManifestCorruption,
    CheckpointManifestFacts, CheckpointManifestStoreError, CoordinatorCheckpointManifestStore,
    DigestFacts, HashAlgorithm, RawManifestRow, StoreCheckpointManifestResult,
};

const CHECKPOINT_ID: &str = "checkpoint-1";
const JOB_ID: &str = "job-1";
const ATTEMPT_ID: &str = "attempt-1";
const NODE_ID: &str = "node-1";

fn attempt() -> StoredAttempt {
    StoredAttempt {
        attempt_id: ATTEMPT_ID.into(),
        job_id: JOB_ID.into(),
        node_ids: vec![NODE_ID.into()],
        fence_epoch: 1,
        state: AttemptState::Created,
    }
}

fn reservation() -> StoredNodeReservation {
    StoredNodeReservation {
        node_id: NODE_ID.into(),
        attempt_id: ATTEMPT_ID.into(),
        job_id: JOB_ID.into(),
    }
}

fn root(byte: u8) -> DigestFacts {
    DigestFacts {
        algorithm: Some(HashAlgorithm::Blake3256),
        value: vec![byte; 32],
    }
}

fn manifest(
    checkpoint_id: &str,
    job_id: &str,
    attempt_id: &str,
    producer: &str,
    fence_epoch: u64,
    key_seed: u8,
    root_byte: u8,
    step: u64,
) -> CheckpointManifestFacts {
    CheckpointManifestFacts {
        schema_version: 1,
        checkpoint_id: checkpoint_id.into(),
        job_id: job_id.into(),
        attempt_id: attempt_id.into(),
        producer_node_id: producer.into(),
        producer_signature: vec![key_seed; 64],
        root_digest: Some(root(root_byte)),
        fence_epoch,
        step,
    }
}

fn valid_manifest() -> CheckpointManifestFacts {
    manifest(CHECKPOINT_ID, JOB_ID, ATTEMPT_ID, NODE_ID, 1, 7, 3, 10)
}

/// The signed body, its hash, and the encoded root digest, as the caller
/// computes them.
fn encoded(m: &CheckpointManifestFacts) -> (Vec<u8>, [u8; 32], Vec<u8>) {
    let root = m.root_digest.as_ref().map(|d| d.value.clone()).unwrap_or_default();
    let mut body = vec![m.step as u8, m.fence_epoch as u8, m.producer_signature[0]];
    body.extend_from_slice(&root);
    let mut hash = [0u8; 32];
    hash[..3].copy_from_slice(&body[..3]);
    let mut root_body = vec![1u8];
    root_body.extend_from_slice(&root);
    (body, hash, root_body)
}

fn store(
    s: &mut CoordinatorCheckpointManifestStore,
    m: &CheckpointManifestFacts,
    signer: &str,
    attempt: Option<&StoredAttempt>,
    reservation: Option<&StoredNodeReservation>,
) -> Result<StoreCheckpointManifestResult, CheckpointManifestStoreError> {
    let (body, hash, root_body) = encoded(m);
    s.store_verified_manifest(m, signer, &body, hash, &root_body, attempt, reservation)
}

#[test]
fn complete_signed_manifest_and_store_derived_hash_survive_reopen() {
    let mut s = CoordinatorCheckpointManifestStore::new();
    let m = valid_manifest();
    let (body, hash, root_body) = encoded(&m);
    let result = store(&mut s, &m, NODE_ID, Some(&attempt()), Some(&reservation())).unwrap();
    assert!(result.created);
    assert_eq!(result.binding.manifest_body, body);
    assert_eq!(result.binding.manifest_hash, hash);
    assert_eq!(result.binding.signer_id_at_submission, NODE_ID);
    assert_eq!(result.binding.bound_fence_epoch, 1);
    let binding = s.get_manifest_binding(CHECKPOINT_ID).unwrap();
    assert_eq!(binding.manifest_body, body);
    assert_eq!(binding.bound_root_digest, root_body);
    // reopen: the stored binding is read back into a new store
    let mut reopened = CoordinatorCheckpointManifestStore::new();
    reopened.restore(binding.clone()).unwrap();
    assert_eq!(reopened.get_manifest_binding(CHECKPOINT_ID).unwrap(), binding);
    let replay = store(&mut reopened, &m, NODE_ID, Some(&attempt()), Some(&reservation())).unwrap();
    assert!(!replay.created);
    assert_eq!(replay.binding, binding);
}

#[test]
fn missing_or_unspecified_root_and_blank_identity_create_no_row() {
    for (mutation, expected) in [
        ("checkpoint", "checkpoint_id"),
        ("root-missing", "root_digest"),
        ("root-unspecified", "root_digest"),
        ("root-length", "root_digest"),
    ] {
        let mut m = valid_manifest();
        match mutation {
            "checkpoint" => m.checkpoint_id = " ".into(),
            "root-missing" => m.root_digest = None,
            "root-unspecified" => m.root_digest.as_mut().unwrap().algorithm = Some(HashAlgorithm::Unspecified),
            "root-length" => {
                m.root_digest.as_mut().unwrap().value.pop();
            }
            _ => unreachable!(),
        }
        let mut s = CoordinatorCheckpointManifestStore::new();
        let (body, hash, _) = encoded(&valid_manifest());
        assert_eq!(
            s.store_verified_manifest(&m, NODE_ID, &body, hash, &vec![1], Some(&attempt()), Some(&reservation())),
            Err(CheckpointManifestStoreError::InvalidInput(expected)),
            "mutation {mutation} must fail closed"
        );
        assert!(s.get_manifest_binding(CHECKPOINT_ID).is_none());
    }
}

#[test]
fn checkpoint_manifest_store_wrong_job_attempt_and_stale_fence_create_no_row() {
    for (m, found, expected) in [
        (
            manifest(CHECKPOINT_ID, "job-other", ATTEMPT_ID, NODE_ID, 1, 7, 3, 10),
            true,
            CheckpointManifestStoreError::BindingMismatch(CheckpointBindingField::JobId),
        ),
        (
            manifest(CHECKPOINT_ID, JOB_ID, "attempt-other", NODE_ID, 1, 7, 3, 10),
            false,
            CheckpointManifestStoreError::AttemptNotFound {
                attempt_id: "attempt-other".into(),
            },
        ),
        (
            manifest(CHECKPOINT_ID, JOB_ID, ATTEMPT_ID, NODE_ID, 0, 7, 3, 10),
            true,
            CheckpointManifestStoreError::BindingMismatch(CheckpointBindingField::FenceEpoch),
        ),
    ] {
        let mut s = CoordinatorCheckpointManifestStore::new();
        let a = attempt();
        let looked_up = if found { Some(&a) } else { None };
        assert_eq!(store(&mut s, &m, NODE_ID, looked_up, Some(&reservation())), Err(expected));
        assert!(s.get_manifest_binding(CHECKPOINT_ID).is_none());
    }
}

#[test]
fn producer_signer_mismatch_with_durable_owner_creates_no_row() {
    let mut s = CoordinatorCheckpointManifestStore::new();
    let m = manifest(CHECKPOINT_ID, JOB_ID, ATTEMPT_ID, "node-other", 1, 8, 3, 10);
    assert_eq!(
        store(&mut s, &m, "node-other", Some(&attempt()), Some(&reservation())),
        Err(CheckpointManifestStoreError::BindingMismatch(CheckpointBindingField::ProducerAndSigner))
    );
    assert!(s.get_manifest_binding(CHECKPOINT_ID).is_none());
}

#[test]
fn checkpoint_manifest_store_missing_or_different_reservation_owner_creates_no_row() {
    let m = valid_manifest();
    let mut s = CoordinatorCheckpointManifestStore::new();
    assert_eq!(
        store(&mut s, &m, NODE_ID, Some(&attempt()), None),
        Err(CheckpointManifestStoreError::ReservationNotFound { node_id: NODE_ID.into() })
    );
    assert!(s.get_manifest_binding(CHECKPOINT_ID).is_none());

    let mut other_job = reservation();
    other_job.job_id = "job-other".into();
    assert_eq!(
        store(&mut s, &m, NODE_ID, Some(&attempt()), Some(&other_job)),
        Err(CheckpointManifestStoreError::BindingMismatch(CheckpointBindingField::ReservationJobId))
    );
    let mut other_attempt = reservation();
    other_attempt.attempt_id = "attempt-other".into();
    assert_eq!(
        store(&mut s, &m, NODE_ID, Some(&attempt()), Some(&other_attempt)),
        Err(CheckpointManifestStoreError::BindingMismatch(CheckpointBindingField::ReservationAttemptId))
    );
    assert!(s.get_manifest_binding(CHECKPOINT_ID).is_none());
}

#[test]
fn checkpoint_manifest_store_exact_replay_returns_first_row_and_changed_body_or_signature_conflicts() {
    let mut s = CoordinatorCheckpointManifestStore::new();
    let m = valid_manifest();
    let first = store(&mut s, &m, NODE_ID, Some(&attempt()), Some(&reservation())).unwrap();
    let replay = store(&mut s, &m, NODE_ID, Some(&attempt()), Some(&reservation())).unwrap();
    assert!(first.created);
    assert!(!replay.created);
    assert_eq!(replay.binding, first.binding);

    let changed_body = manifest(CHECKPOINT_ID, JOB_ID, ATTEMPT_ID, NODE_ID, 1, 7, 4, 11);
    assert!(matches!(
        store(&mut s, &changed_body, NODE_ID, Some(&attempt()), Some(&reservation())),
        Err(CheckpointManifestStoreError::ManifestConflict { .. })
    ));
    let changed_signature = manifest(CHECKPOINT_ID, JOB_ID, ATTEMPT_ID, NODE_ID, 1, 8, 3, 10);
    assert!(matches!(
        store(&mut s, &changed_signature, NODE_ID, Some(&attempt()), Some(&reservation())),
        Err(CheckpointManifestStoreError::ManifestConflict { .. })
    ));
    assert_eq!(s.get_manifest_binding(CHECKPOINT_ID), Some(first.binding));
}

fn stored_row(m: &CheckpointManifestFacts) -> RawManifestRow {
    let (body, hash, root_body) = encoded(m);
    RawManifestRow {
        checkpoint_id: CHECKPOINT_ID.into(),
        job_id: JOB_ID.into(),
        attempt_id: ATTEMPT_ID.into(),
        producer_node_id: NODE_ID.into(),
        verified_signer_id: NODE_ID.into(),
        fence_epoch: vec![0, 0, 0, 0, 0, 0, 0, 1],
        root_digest: root_body,
        manifest_hash: hash.to_vec(),
        manifest_body: body,
    }
}

#[test]
fn corrupt_body_hash_identity_signer_fence_and_root_fail_closed() {
    let m = valid_manifest();
    let (_, hash, _) = encoded(&m);
    let found = AttemptLookup::Found(attempt());
    let stored_root = root(3);
    let corrupt = |kind| CheckpointManifestStoreError::Corrupt {
        checkpoint_id: CHECKPOINT_ID.into(),
        kind,
    };
    let check = |row: &RawManifestRow, h: &[u8; 32], d: Option<&CheckpointManifestFacts>, r: Option<&DigestFacts>| {
        check_manifest_row(row, h, d, r, &found)
    };

    assert!(check(&stored_row(&m), &hash, Some(&m), Some(&stored_root)).is_ok());

    let mut row = stored_row(&m);
    row.manifest_body = vec![];
    assert_eq!(check(&row, &hash, Some(&m), Some(&stored_root)), Err(corrupt(CheckpointManifestCorruption::EmptyBody)));
    let row = stored_row(&m);
    assert_eq!(check(&row, &hash, None, Some(&stored_root)), Err(corrupt(CheckpointManifestCorruption::UndecodableBody)));
    let mut row = stored_row(&m);
    row.manifest_hash = vec![1];
    assert_eq!(check(&row, &hash, Some(&m), Some(&stored_root)), Err(corrupt(CheckpointManifestCorruption::HashEncoding)));
    let row = stored_row(&m);
    assert_eq!(check(&row, &[9; 32], Some(&m), Some(&stored_root)), Err(corrupt(CheckpointManifestCorruption::HashMismatch)));

    let mut changed = m.clone();
    changed.root_digest.as_mut().unwrap().algorithm = None;
    assert_eq!(check(&row, &hash, Some(&changed), Some(&stored_root)), Err(corrupt(CheckpointManifestCorruption::InvalidManifest)));
    let mut changed = m.clone();
    changed.checkpoint_id = "checkpoint-other".into();
    assert_eq!(check(&row, &hash, Some(&changed), Some(&stored_root)), Err(corrupt(CheckpointManifestCorruption::CheckpointIdMismatch)));
    let mut changed = m.clone();
    changed.job_id = "job-other".into();
    assert_eq!(check(&row, &hash, Some(&changed), Some(&stored_root)), Err(corrupt(CheckpointManifestCorruption::JobIdMismatch)));
    let mut changed = m.clone();
    changed.attempt_id = "attempt-other".into();
    assert_eq!(check(&row, &hash, Some(&changed), Some(&stored_root)), Err(corrupt(CheckpointManifestCorruption::AttemptIdMismatch)));
    let mut changed = m.clone();
    changed.producer_node_id = "node-other".into();
    assert_eq!(check(&row, &hash, Some(&changed), Some(&stored_root)), Err(corrupt(CheckpointManifestCorruption::ProducerNodeIdMismatch)));

    let mut row = stored_row(&m);
    row.verified_signer_id = "node-other".into();
    assert_eq!(check(&row, &hash, Some(&m), Some(&stored_root)), Err(corrupt(CheckpointManifestCorruption::SignerIdMismatch)));
    let mut row = stored_row(&m);
    row.fence_epoch = vec![1];
    assert_eq!(check(&row, &hash, Some(&m), Some(&stored_root)), Err(corrupt(CheckpointManifestCorruption::FenceEpochEncoding)));
    let row = stored_row(&m);
    let mut changed = m.clone();
    changed.fence_epoch = 2;
    assert_eq!(check(&row, &hash, Some(&changed), Some(&stored_root)), Err(corrupt(CheckpointManifestCorruption::FenceEpochMismatch)));

    let mut row = stored_row(&m);
    row.root_digest = vec![];
    assert_eq!(check(&row, &hash, Some(&m), Some(&stored_root)), Err(corrupt(CheckpointManifestCorruption::RootDigestEncoding)));
    let row = stored_row(&m);
    assert_eq!(check(&row, &hash, Some(&m), Some(&root(8))), Err(corrupt(CheckpointManifestCorruption::RootDigestMismatch)));
}

#[test]
fn current_attempt_binding_corruption_fails_closed() {
    let m = valid_manifest();
    let (_, hash, _) = encoded(&m);
    let row = stored_row(&m);
    let stored_root = root(3);
    let corrupt = |kind| {
        Err(CheckpointManifestStoreError::Corrupt {
            checkpoint_id: CHECKPOINT_ID.into(),
            kind,
        })
    };
    assert_eq!(
        check_manifest_row(&row, &hash, Some(&m), Some(&stored_root), &AttemptLookup::Corrupt),
        corrupt(CheckpointManifestCorruption::AttemptBinding)
    );
    assert_eq!(
        check_manifest_row(&row, &hash, Some(&m), Some(&stored_root), &AttemptLookup::Missing),
        corrupt(CheckpointManifestCorruption::MissingAttempt)
    );
    let mut moved = attempt();
    moved.node_ids = vec!["node-other".into()];
    assert_eq!(
        check_manifest_row(&row, &hash, Some(&m), Some(&stored_root), &AttemptLookup::Found(moved)),
        corrupt(CheckpointManifestCorruption::ProducerNodeIdMismatch)
    );
    let mut fenced = attempt();
    fenced.fence_epoch = 2;
    assert_eq!(
        check_manifest_row(&row, &hash, Some(&m), Some(&stored_root), &AttemptLookup::Found(fenced)),
        corrupt(CheckpointManifestCorruption::FenceEpochMismatch)
    );
}

#[test]
fn checkpoint_manifest_store_errors_read_as_their_text() {
    assert_eq!(
        CheckpointManifestStoreError::BindingMismatch(CheckpointBindingField::ReservationAttemptId).message(),
        "CheckpointManifest durable binding mismatch: ReservationAttemptId"
    );
    assert_eq!(
        CheckpointManifestStoreError::Corrupt {
            checkpoint_id: "c".into(),
            kind: CheckpointManifestCorruption::RootDigestMismatch,
        }
        .message(),
        "durable CheckpointManifest is corrupt: checkpoint=c, kind=RootDigestMismatch"
    );
    assert_eq!(
        CheckpointManifestStoreError::LockTimeout.message(),
        "CheckpointManifest store lock acquisition timed out"
    );
}
