//! Durable inbox for verified signed checkpoint manifests.
//!
//! A manifest is bound to its stored single-node attempt and to that node's
//! current reservation. Storing it inspects no checkpoint file, advances no
//! durability, moves no Job or attempt, revokes no lease and releases no
//! reservation.
use vstd::prelude::*;

use crate::attempt_report_store::{StoredAttempt, StoredNodeReservation};
use crate::job_store::{be_value, copy_bytes, decode_hash, decode_u64, same_bytes, same_hash};
use crate::table::{keys_unique, lemma_table_absent, lemma_table_at, lemma_table_push, table_map};
use crate::text::{blank, copy_string, is_blank, push_str, str_eq};

verus! {

#[derive(Debug, Clone, Copy, PartialEq, Eq, Structural)]
pub enum CheckpointBindingField {
    JobId,
    AttemptId,
    ProducerAndSigner,
    FenceEpoch,
    ReservationJobId,
    ReservationAttemptId,
}

#[derive(Debug, Clone, Copy, PartialEq, Eq, Structural)]
pub enum CheckpointManifestCorruption {
    EmptyBody,
    UndecodableBody,
    HashEncoding,
    HashMismatch,
    InvalidManifest,
    CheckpointIdMismatch,
    JobIdMismatch,
    AttemptIdMismatch,
    ProducerNodeIdMismatch,
    SignerIdMismatch,
    FenceEpochEncoding,
    FenceEpochMismatch,
    RootDigestEncoding,
    RootDigestMismatch,
    MissingAttempt,
    AttemptBinding,
}

#[derive(Debug, PartialEq, Eq)]
pub enum CheckpointManifestStoreError {
    InvalidInput(&'static str),
    AttemptNotFound { attempt_id: String },
    ReservationNotFound { node_id: String },
    BindingMismatch(CheckpointBindingField),
    ManifestConflict { checkpoint_id: String },
    Corrupt { checkpoint_id: String, kind: CheckpointManifestCorruption },
    Staging(String),
    Io(String),
    LockTimeout,
}

/// The hash algorithms a digest can name.
#[derive(Debug, Clone, Copy, PartialEq, Eq, Structural)]
pub enum HashAlgorithm {
    Unspecified,
    Blake3256,
}

/// A digest: its algorithm (`None` for a value the protocol does not
/// define) and its bytes.
#[derive(Debug, Clone, PartialEq, Eq)]
pub struct DigestFacts {
    pub algorithm: Option<HashAlgorithm>,
    pub value: Vec<u8>,
}

/// The fields of a signed checkpoint manifest that storing reads.
#[derive(Debug, Clone, PartialEq, Eq)]
pub struct CheckpointManifestFacts {
    pub schema_version: u32,
    pub checkpoint_id: String,
    pub job_id: String,
    pub attempt_id: String,
    pub producer_node_id: String,
    pub producer_signature: Vec<u8>,
    pub root_digest: Option<DigestFacts>,
    pub fence_epoch: u64,
    pub step: u64,
}

/// A root digest must be a 32-byte BLAKE3-256 value.
pub open spec fn root_digest_ok(d: DigestFacts) -> bool {
    d.algorithm == Some(HashAlgorithm::Blake3256) && d.value@.len() == 32
}

pub fn validate_root_digest(digest: &DigestFacts) -> (r: Result<(), CheckpointManifestStoreError>)
    ensures
        root_digest_ok(*digest) ==> r is Ok,
        !root_digest_ok(*digest) ==> r == Err::<(), CheckpointManifestStoreError>(
            CheckpointManifestStoreError::InvalidInput("root_digest"),
        ),
{
    match digest.algorithm {
        Some(HashAlgorithm::Blake3256) => if digest.value.len() == 32 {
            Ok(())
        } else {
            Err(CheckpointManifestStoreError::InvalidInput("root_digest"))
        },
        _ => Err(CheckpointManifestStoreError::InvalidInput("root_digest")),
    }
}

/// The first missing or blank required field of a manifest, by name.
pub open spec fn manifest_input_error(m: CheckpointManifestFacts) -> Option<&'static str> {
    if m.schema_version == 0 {
        Some("schema_version")
    } else if is_blank(m.checkpoint_id@) {
        Some("checkpoint_id")
    } else if is_blank(m.job_id@) {
        Some("job_id")
    } else if is_blank(m.attempt_id@) {
        Some("attempt_id")
    } else if is_blank(m.producer_node_id@) {
        Some("producer_node_id")
    } else if m.producer_signature@.len() == 0 {
        Some("producer_signature")
    } else if m.root_digest is None || !root_digest_ok(m.root_digest->0) {
        Some("root_digest")
    } else {
        None
    }
}

pub fn validate_manifest_input(m: &CheckpointManifestFacts) -> (r: Result<(), CheckpointManifestStoreError>)
    ensures
        match manifest_input_error(*m) {
            None => r is Ok,
            Some(f) => r == Err::<(), CheckpointManifestStoreError>(CheckpointManifestStoreError::InvalidInput(f)),
        },
{
    if m.schema_version == 0 {
        return Err(CheckpointManifestStoreError::InvalidInput("schema_version"));
    }
    if blank(m.checkpoint_id.as_str()) {
        return Err(CheckpointManifestStoreError::InvalidInput("checkpoint_id"));
    }
    if blank(m.job_id.as_str()) {
        return Err(CheckpointManifestStoreError::InvalidInput("job_id"));
    }
    if blank(m.attempt_id.as_str()) {
        return Err(CheckpointManifestStoreError::InvalidInput("attempt_id"));
    }
    if blank(m.producer_node_id.as_str()) {
        return Err(CheckpointManifestStoreError::InvalidInput("producer_node_id"));
    }
    if m.producer_signature.len() == 0 {
        return Err(CheckpointManifestStoreError::InvalidInput("producer_signature"));
    }
    match &m.root_digest {
        None => Err(CheckpointManifestStoreError::InvalidInput("root_digest")),
        Some(d) => validate_root_digest(d),
    }
}

/// The first attempt fact the manifest does not match: job, attempt, fence.
pub open spec fn attempt_identity_error(m: CheckpointManifestFacts, a: StoredAttempt) -> Option<CheckpointBindingField> {
    if m.job_id@ != a.job_id@ {
        Some(CheckpointBindingField::JobId)
    } else if m.attempt_id@ != a.attempt_id@ {
        Some(CheckpointBindingField::AttemptId)
    } else if m.fence_epoch != a.fence_epoch {
        Some(CheckpointBindingField::FenceEpoch)
    } else {
        None
    }
}

/// The first reservation fact the manifest does not match.
pub open spec fn reservation_identity_error(m: CheckpointManifestFacts, r: StoredNodeReservation) -> Option<
    CheckpointBindingField,
> {
    if m.job_id@ != r.job_id@ {
        Some(CheckpointBindingField::ReservationJobId)
    } else if m.attempt_id@ != r.attempt_id@ {
        Some(CheckpointBindingField::ReservationAttemptId)
    } else {
        None
    }
}

/// Producer, signer, the attempt's node and the reservation's node are one
/// and the same.
pub open spec fn producer_and_signer_ok(
    m: CheckpointManifestFacts,
    signer_id: Seq<char>,
    attempt_node: Seq<char>,
    r: StoredNodeReservation,
) -> bool {
    &&& m.producer_node_id@ == attempt_node
    &&& m.producer_node_id@ == r.node_id@
    &&& signer_id == m.producer_node_id@
    &&& signer_id == attempt_node
    &&& signer_id == r.node_id@
}

pub fn bind_attempt_identity_and_fence(m: &CheckpointManifestFacts, a: &StoredAttempt) -> (r: Result<
    (),
    CheckpointManifestStoreError,
>)
    ensures
        match attempt_identity_error(*m, *a) {
            None => r is Ok,
            Some(f) => r == Err::<(), CheckpointManifestStoreError>(CheckpointManifestStoreError::BindingMismatch(f)),
        },
{
    if !str_eq(m.job_id.as_str(), a.job_id.as_str()) {
        return Err(CheckpointManifestStoreError::BindingMismatch(CheckpointBindingField::JobId));
    }
    if !str_eq(m.attempt_id.as_str(), a.attempt_id.as_str()) {
        return Err(CheckpointManifestStoreError::BindingMismatch(CheckpointBindingField::AttemptId));
    }
    if m.fence_epoch != a.fence_epoch {
        return Err(CheckpointManifestStoreError::BindingMismatch(CheckpointBindingField::FenceEpoch));
    }
    Ok(())
}

pub fn bind_reservation_identity(m: &CheckpointManifestFacts, res: &StoredNodeReservation) -> (r: Result<
    (),
    CheckpointManifestStoreError,
>)
    ensures
        match reservation_identity_error(*m, *res) {
            None => r is Ok,
            Some(f) => r == Err::<(), CheckpointManifestStoreError>(CheckpointManifestStoreError::BindingMismatch(f)),
        },
{
    if !str_eq(m.job_id.as_str(), res.job_id.as_str()) {
        return Err(CheckpointManifestStoreError::BindingMismatch(CheckpointBindingField::ReservationJobId));
    }
    if !str_eq(m.attempt_id.as_str(), res.attempt_id.as_str()) {
        return Err(CheckpointManifestStoreError::BindingMismatch(CheckpointBindingField::ReservationAttemptId));
    }
    Ok(())
}

pub fn bind_producer_and_signer(
    m: &CheckpointManifestFacts,
    signer_id: &str,
    attempt_node: &str,
    res: &StoredNodeReservation,
) -> (r: Result<(), CheckpointManifestStoreError>)
    ensures
        producer_and_signer_ok(*m, signer_id@, attempt_node@, *res) ==> r is Ok,
        !producer_and_signer_ok(*m, signer_id@, attempt_node@, *res) ==> r == Err::<
            (),
            CheckpointManifestStoreError,
        >(CheckpointManifestStoreError::BindingMismatch(CheckpointBindingField::ProducerAndSigner)),
{
    let p = m.producer_node_id.as_str();
    if !str_eq(p, attempt_node) || !str_eq(p, res.node_id.as_str()) || !str_eq(signer_id, p) || !str_eq(
        signer_id,
        attempt_node,
    ) || !str_eq(signer_id, res.node_id.as_str()) {
        return Err(CheckpointManifestStoreError::BindingMismatch(CheckpointBindingField::ProducerAndSigner));
    }
    Ok(())
}

/// A stored manifest with what it was bound to.
#[derive(Debug, Clone, PartialEq, Eq)]
pub struct StoredCheckpointManifestBinding {
    pub manifest_body: Vec<u8>,
    pub manifest_hash: [u8; 32],
    pub signer_id_at_submission: String,
    pub bound_checkpoint_id: String,
    pub bound_job_id: String,
    pub bound_attempt_id: String,
    pub bound_producer_node_id: String,
    pub bound_fence_epoch: u64,
    pub bound_root_digest: Vec<u8>,
}

pub struct ManifestBindingView {
    pub manifest_body: Seq<u8>,
    pub manifest_hash: Seq<u8>,
    pub signer_id_at_submission: Seq<char>,
    pub bound_checkpoint_id: Seq<char>,
    pub bound_job_id: Seq<char>,
    pub bound_attempt_id: Seq<char>,
    pub bound_producer_node_id: Seq<char>,
    pub bound_fence_epoch: u64,
    pub bound_root_digest: Seq<u8>,
}

impl View for StoredCheckpointManifestBinding {
    type V = ManifestBindingView;

    open spec fn view(&self) -> ManifestBindingView {
        ManifestBindingView {
            manifest_body: self.manifest_body@,
            manifest_hash: self.manifest_hash@,
            signer_id_at_submission: self.signer_id_at_submission@,
            bound_checkpoint_id: self.bound_checkpoint_id@,
            bound_job_id: self.bound_job_id@,
            bound_attempt_id: self.bound_attempt_id@,
            bound_producer_node_id: self.bound_producer_node_id@,
            bound_fence_epoch: self.bound_fence_epoch,
            bound_root_digest: self.bound_root_digest@,
        }
    }
}

impl StoredCheckpointManifestBinding {
    pub fn copied(&self) -> (r: StoredCheckpointManifestBinding)
        ensures
            r@ == self@,
    {
        StoredCheckpointManifestBinding {
            manifest_body: copy_bytes(&self.manifest_body),
            manifest_hash: self.manifest_hash,
            signer_id_at_submission: copy_string(&self.signer_id_at_submission),
            bound_checkpoint_id: copy_string(&self.bound_checkpoint_id),
            bound_job_id: copy_string(&self.bound_job_id),
            bound_attempt_id: copy_string(&self.bound_attempt_id),
            bound_producer_node_id: copy_string(&self.bound_producer_node_id),
            bound_fence_epoch: self.bound_fence_epoch,
            bound_root_digest: copy_bytes(&self.bound_root_digest),
        }
    }
}

#[derive(Debug, Clone, PartialEq, Eq)]
pub struct StoreCheckpointManifestResult {
    pub binding: StoredCheckpointManifestBinding,
    /// `false`: an exact replay returned the first stored manifest.
    pub created: bool,
}

pub type ManifestMap = Map<Seq<char>, ManifestBindingView>;

/// The outcome of storing a manifest, as values.
pub enum ManifestOutcome {
    Stored(ManifestBindingView, bool),
    Refused(CheckpointManifestStoreError),
    Conflict(Seq<char>),
    MissingAttempt(Seq<char>),
    MissingReservation(Seq<char>),
}

pub open spec fn manifest_outcome_of(r: Result<StoreCheckpointManifestResult, CheckpointManifestStoreError>) -> ManifestOutcome {
    match r {
        Ok(s) => ManifestOutcome::Stored(s.binding@, s.created),
        Err(CheckpointManifestStoreError::ManifestConflict { checkpoint_id }) => ManifestOutcome::Conflict(checkpoint_id@),
        Err(CheckpointManifestStoreError::AttemptNotFound { attempt_id }) => ManifestOutcome::MissingAttempt(attempt_id@),
        Err(CheckpointManifestStoreError::ReservationNotFound { node_id }) => ManifestOutcome::MissingReservation(node_id@),
        Err(e) => ManifestOutcome::Refused(e),
    }
}

/// What storing a manifest does: the first manifest under a checkpoint id
/// is the evidence (an exact replay returns it, anything else conflicts); a
/// new one must match its attempt (job, attempt, fence), the current
/// reservation of the attempt's node (job, attempt), and have producer,
/// signer, attempt node and reservation node all the same. Any refusal stores
/// nothing. `reservation` is the reservation of the attempt's node.
pub open spec fn store_manifest_step(
    s: ManifestMap,
    m: CheckpointManifestFacts,
    signer_id: Seq<char>,
    body: Seq<u8>,
    hash: Seq<u8>,
    root_digest_body: Seq<u8>,
    attempt: Option<StoredAttempt>,
    reservation: Option<StoredNodeReservation>,
) -> (ManifestMap, ManifestOutcome) {
    let key = m.checkpoint_id@;
    if manifest_input_error(m) is Some {
        (s, ManifestOutcome::Refused(CheckpointManifestStoreError::InvalidInput(manifest_input_error(m)->0)))
    } else if s.contains_key(key) {
        if s[key].manifest_body != body || s[key].signer_id_at_submission != signer_id {
            (s, ManifestOutcome::Conflict(key))
        } else {
            (s, ManifestOutcome::Stored(s[key], false))
        }
    } else if attempt is None {
        (s, ManifestOutcome::MissingAttempt(m.attempt_id@))
    } else if attempt_identity_error(m, attempt->0) is Some {
        (s, ManifestOutcome::Refused(CheckpointManifestStoreError::BindingMismatch(attempt_identity_error(m, attempt->0)->0)))
    } else if reservation is None {
        (s, ManifestOutcome::MissingReservation(attempt->0.node_ids@[0]@))
    } else if reservation_identity_error(m, reservation->0) is Some {
        (s, ManifestOutcome::Refused(CheckpointManifestStoreError::BindingMismatch(reservation_identity_error(m, reservation->0)->0)))
    } else if !producer_and_signer_ok(m, signer_id, attempt->0.node_ids@[0]@, reservation->0) {
        (s, ManifestOutcome::Refused(CheckpointManifestStoreError::BindingMismatch(CheckpointBindingField::ProducerAndSigner)))
    } else {
        let b = ManifestBindingView {
            manifest_body: body,
            manifest_hash: hash,
            signer_id_at_submission: signer_id,
            bound_checkpoint_id: m.checkpoint_id@,
            bound_job_id: m.job_id@,
            bound_attempt_id: m.attempt_id@,
            bound_producer_node_id: m.producer_node_id@,
            bound_fence_epoch: m.fence_epoch,
            bound_root_digest: root_digest_body,
        };
        (s.insert(key, b), ManifestOutcome::Stored(b, true))
    }
}

spec fn manifest_key() -> spec_fn(StoredCheckpointManifestBinding) -> Seq<char> {
    |b: StoredCheckpointManifestBinding| b.bound_checkpoint_id@
}

spec fn manifest_val() -> spec_fn(StoredCheckpointManifestBinding) -> ManifestBindingView {
    |b: StoredCheckpointManifestBinding| b@
}

/// The stored checkpoint manifests, one per checkpoint id.
pub struct CoordinatorCheckpointManifestStore {
    manifests: Vec<StoredCheckpointManifestBinding>,
}

impl View for CoordinatorCheckpointManifestStore {
    type V = ManifestMap;

    closed spec fn view(&self) -> ManifestMap {
        table_map(self.manifests@, manifest_key(), manifest_val())
    }
}

impl CoordinatorCheckpointManifestStore {
    pub closed spec fn wf(&self) -> bool {
        keys_unique(self.manifests@, manifest_key())
    }

    pub fn new() -> (s: Self)
        ensures
            s.wf(),
            s@ == Map::<Seq<char>, ManifestBindingView>::empty(),
    {
        let s = CoordinatorCheckpointManifestStore { manifests: Vec::new() };
        assert(s@ =~= Map::<Seq<char>, ManifestBindingView>::empty());
        s
    }

    fn find(&self, checkpoint_id: &str) -> (r: Option<usize>)
        requires
            self.wf(),
        ensures
            match r {
                Some(i) => i < self.manifests@.len() && self@.contains_key(checkpoint_id@)
                    && self@[checkpoint_id@] == self.manifests@[i as int]@,
                None => !self@.contains_key(checkpoint_id@),
            },
    {
        let mut i: usize = 0;
        while i < self.manifests.len()
            invariant
                keys_unique(self.manifests@, manifest_key()),
                i <= self.manifests@.len(),
                forall|k: int| 0 <= k < i ==> manifest_key()(#[trigger] self.manifests@[k]) != checkpoint_id@,
            decreases self.manifests@.len() - i,
        {
            if str_eq(self.manifests[i].bound_checkpoint_id.as_str(), checkpoint_id) {
                proof {
                    lemma_table_at(self.manifests@, manifest_key(), manifest_val(), i as int);
                }
                return Some(i);
            }
            i = i + 1;
        }
        proof {
            lemma_table_absent(self.manifests@, manifest_key(), manifest_val(), checkpoint_id@);
        }
        None
    }

    /// Puts a manifest read back from durable rows (see
    /// `check_manifest_row`) into the store. A second manifest under the same
    /// checkpoint id is refused and nothing changes.
    pub fn restore(&mut self, binding: StoredCheckpointManifestBinding) -> (r: Result<(), CheckpointManifestStoreError>)
        requires
            old(self).wf(),
        ensures
            final(self).wf(),
            if old(self)@.contains_key(binding.bound_checkpoint_id@) {
                r is Err && final(self)@ == old(self)@
            } else {
                r is Ok && final(self)@ == old(self)@.insert(binding.bound_checkpoint_id@, binding@)
            },
    {
        if self.find(binding.bound_checkpoint_id.as_str()).is_some() {
            return Err(
                CheckpointManifestStoreError::ManifestConflict { checkpoint_id: copy_string(&binding.bound_checkpoint_id) },
            );
        }
        proof {
            lemma_table_push(self.manifests@, manifest_key(), manifest_val(), binding);
        }
        self.manifests.push(binding);
        Ok(())
    }

    /// The stored manifest of `checkpoint_id`, if any.
    pub fn get_manifest_binding(&self, checkpoint_id: &str) -> (r: Option<StoredCheckpointManifestBinding>)
        requires
            self.wf(),
        ensures
            match r {
                Some(b) => self@.contains_key(checkpoint_id@) && b@ == self@[checkpoint_id@],
                None => !self@.contains_key(checkpoint_id@),
            },
    {
        match self.find(checkpoint_id) {
            Some(i) => Some(self.manifests[i].copied()),
            None => None,
        }
    }

    /// Stores a verified manifest after binding it to its attempt and the
    /// current reservation of the attempt's node (see `store_manifest_step`).
    /// `body` is the manifest as signed, `manifest_hash` its hash and
    /// `root_digest_body` the encoded root digest.
    pub fn store_verified_manifest(
        &mut self,
        manifest: &CheckpointManifestFacts,
        signer_id: &str,
        body: &Vec<u8>,
        manifest_hash: [u8; 32],
        root_digest_body: &Vec<u8>,
        attempt: Option<&StoredAttempt>,
        reservation: Option<&StoredNodeReservation>,
    ) -> (r: Result<StoreCheckpointManifestResult, CheckpointManifestStoreError>)
        requires
            old(self).wf(),
            attempt matches Some(a) ==> a.node_ids@.len() > 0,
        ensures
            final(self).wf(),
            (final(self)@, manifest_outcome_of(r)) == store_manifest_step(
                old(self)@,
                *manifest,
                signer_id@,
                body@,
                manifest_hash@,
                root_digest_body@,
                match attempt {
                    Some(a) => Some(*a),
                    None => None,
                },
                match reservation {
                    Some(x) => Some(*x),
                    None => None,
                },
            ),
    {
        validate_manifest_input(manifest)?;
        match self.find(manifest.checkpoint_id.as_str()) {
            Some(i) => {
                let stored = &self.manifests[i];
                if !same_bytes(&stored.manifest_body, body) || !str_eq(stored.signer_id_at_submission.as_str(), signer_id) {
                    return Err(CheckpointManifestStoreError::ManifestConflict { checkpoint_id: copy_string(&manifest.checkpoint_id) });
                }
                return Ok(StoreCheckpointManifestResult { binding: stored.copied(), created: false });
            },
            None => {},
        }
        let a = match attempt {
            None => {
                return Err(CheckpointManifestStoreError::AttemptNotFound { attempt_id: copy_string(&manifest.attempt_id) });
            },
            Some(a) => a,
        };
        bind_attempt_identity_and_fence(manifest, a)?;
        let node = a.node_ids[0].as_str();
        let res = match reservation {
            None => {
                return Err(CheckpointManifestStoreError::ReservationNotFound { node_id: String::from_str(node) });
            },
            Some(x) => x,
        };
        bind_reservation_identity(manifest, res)?;
        bind_producer_and_signer(manifest, signer_id, node, res)?;
        let binding = StoredCheckpointManifestBinding {
            manifest_body: copy_bytes(body),
            manifest_hash,
            signer_id_at_submission: String::from_str(signer_id),
            bound_checkpoint_id: copy_string(&manifest.checkpoint_id),
            bound_job_id: copy_string(&manifest.job_id),
            bound_attempt_id: copy_string(&manifest.attempt_id),
            bound_producer_node_id: copy_string(&manifest.producer_node_id),
            bound_fence_epoch: manifest.fence_epoch,
            bound_root_digest: copy_bytes(root_digest_body),
        };
        proof {
            lemma_table_push(self.manifests@, manifest_key(), manifest_val(), binding);
        }
        let result = binding.copied();
        self.manifests.push(binding);
        Ok(StoreCheckpointManifestResult { binding: result, created: true })
    }
}

/// One stored manifest row as the durable store holds it.
#[derive(Debug, Clone, PartialEq, Eq)]
pub struct RawManifestRow {
    pub checkpoint_id: String,
    pub job_id: String,
    pub attempt_id: String,
    pub producer_node_id: String,
    pub verified_signer_id: String,
    pub fence_epoch: Vec<u8>,
    pub root_digest: Vec<u8>,
    pub manifest_hash: Vec<u8>,
    pub manifest_body: Vec<u8>,
}

/// Two digests name the same algorithm and bytes.
pub open spec fn same_root(a: Option<DigestFacts>, b: Option<DigestFacts>) -> bool {
    match (a, b) {
        (Some(x), Some(y)) => x.algorithm == y.algorithm && x.value@ == y.value@,
        (None, None) => true,
        _ => false,
    }
}

/// How the stored attempt of a row was read.
#[derive(Debug, Clone, PartialEq, Eq)]
pub enum AttemptLookup {
    Found(StoredAttempt),
    Missing,
    /// The attempt row itself is corrupt.
    Corrupt,
}

/// The first way a stored manifest row fails to hold together, in the order
/// it is checked: the body; its hash (width, then value against
/// `body_hash`); that it decodes (`decoded`) into a valid manifest; that it
/// names the row's checkpoint, job, attempt and producer, and the signer is
/// that producer; the fence (width, then value); the root digest column
/// (non-empty, decodes as `stored_root`, valid) and that it equals the
/// manifest's root digest; the stored attempt (readable, present, same job,
/// only that producer node, same fence).
pub open spec fn manifest_row_corruption(
    row: RawManifestRow,
    body_hash: Seq<u8>,
    decoded: Option<CheckpointManifestFacts>,
    stored_root: Option<DigestFacts>,
    attempt: AttemptLookup,
) -> Option<CheckpointManifestCorruption> {
    if row.manifest_body@.len() == 0 {
        Some(CheckpointManifestCorruption::EmptyBody)
    } else if row.manifest_hash@.len() != 32 {
        Some(CheckpointManifestCorruption::HashEncoding)
    } else if body_hash != row.manifest_hash@ {
        Some(CheckpointManifestCorruption::HashMismatch)
    } else if decoded is None {
        Some(CheckpointManifestCorruption::UndecodableBody)
    } else if manifest_input_error(decoded->0) is Some {
        Some(CheckpointManifestCorruption::InvalidManifest)
    } else if decoded->0.checkpoint_id@ != row.checkpoint_id@ {
        Some(CheckpointManifestCorruption::CheckpointIdMismatch)
    } else if decoded->0.job_id@ != row.job_id@ {
        Some(CheckpointManifestCorruption::JobIdMismatch)
    } else if decoded->0.attempt_id@ != row.attempt_id@ {
        Some(CheckpointManifestCorruption::AttemptIdMismatch)
    } else if decoded->0.producer_node_id@ != row.producer_node_id@ {
        Some(CheckpointManifestCorruption::ProducerNodeIdMismatch)
    } else if row.verified_signer_id@ != row.producer_node_id@ || row.verified_signer_id@
        != decoded->0.producer_node_id@ {
        Some(CheckpointManifestCorruption::SignerIdMismatch)
    } else if row.fence_epoch@.len() != 8 {
        Some(CheckpointManifestCorruption::FenceEpochEncoding)
    } else if decoded->0.fence_epoch != be_value(row.fence_epoch@) {
        Some(CheckpointManifestCorruption::FenceEpochMismatch)
    } else if row.root_digest@.len() == 0 || stored_root is None || !root_digest_ok(stored_root->0) {
        Some(CheckpointManifestCorruption::RootDigestEncoding)
    } else if !same_root(decoded->0.root_digest, stored_root) {
        Some(CheckpointManifestCorruption::RootDigestMismatch)
    } else {
        match attempt {
            AttemptLookup::Corrupt => Some(CheckpointManifestCorruption::AttemptBinding),
            AttemptLookup::Missing => Some(CheckpointManifestCorruption::MissingAttempt),
            AttemptLookup::Found(a) => if a.job_id@ != row.job_id@ {
                Some(CheckpointManifestCorruption::JobIdMismatch)
            } else if !(a.node_ids@.len() == 1 && a.node_ids@[0]@ == row.producer_node_id@) {
                Some(CheckpointManifestCorruption::ProducerNodeIdMismatch)
            } else if a.fence_epoch != be_value(row.fence_epoch@) {
                Some(CheckpointManifestCorruption::FenceEpochMismatch)
            } else {
                None
            },
        }
    }
}

fn corrupt_manifest(row: &RawManifestRow, kind: CheckpointManifestCorruption) -> (e: CheckpointManifestStoreError)
    ensures
        e matches CheckpointManifestStoreError::Corrupt { checkpoint_id, kind: k } && checkpoint_id@
            == row.checkpoint_id@ && k == kind,
{
    CheckpointManifestStoreError::Corrupt { checkpoint_id: copy_string(&row.checkpoint_id), kind }
}

fn same_digest(a: &Option<DigestFacts>, b: &Option<DigestFacts>) -> (r: bool)
    ensures
        r == same_root(*a, *b),
{
    match (a, b) {
        (Some(x), Some(y)) => x.algorithm == y.algorithm && same_bytes(&x.value, &y.value),
        (None, None) => true,
        _ => false,
    }
}

/// Reads a stored manifest row back, failing closed on any corruption (see
/// `manifest_row_corruption`). The hash of the body, the decoded manifest,
/// the decoded root digest column and the attempt lookup are handed in.
pub fn check_manifest_row(
    row: &RawManifestRow,
    body_hash: &[u8; 32],
    decoded: Option<&CheckpointManifestFacts>,
    stored_root: Option<&DigestFacts>,
    attempt: &AttemptLookup,
) -> (r: Result<StoredCheckpointManifestBinding, CheckpointManifestStoreError>)
    ensures
        ({
            let d = match decoded {
                Some(x) => Some(*x),
                None => None,
            };
            let s = match stored_root {
                Some(x) => Some(*x),
                None => None,
            };
            match manifest_row_corruption(*row, body_hash@, d, s, *attempt) {
                Some(kind) => r matches Err(CheckpointManifestStoreError::Corrupt { checkpoint_id, kind: k })
                    && checkpoint_id@ == row.checkpoint_id@ && k == kind,
                None => r matches Ok(b) && b@ == (ManifestBindingView {
                    manifest_body: row.manifest_body@,
                    manifest_hash: row.manifest_hash@,
                    signer_id_at_submission: row.verified_signer_id@,
                    bound_checkpoint_id: row.checkpoint_id@,
                    bound_job_id: row.job_id@,
                    bound_attempt_id: row.attempt_id@,
                    bound_producer_node_id: row.producer_node_id@,
                    bound_fence_epoch: be_value(row.fence_epoch@) as u64,
                    bound_root_digest: row.root_digest@,
                }),
            }
        }),
{
    if row.manifest_body.len() == 0 {
        return Err(corrupt_manifest(row, CheckpointManifestCorruption::EmptyBody));
    }
    let hash = match decode_hash(copy_bytes(&row.manifest_hash)) {
        Ok(h) => h,
        Err(_) => {
            return Err(corrupt_manifest(row, CheckpointManifestCorruption::HashEncoding));
        },
    };
    if !same_hash(body_hash, &hash) {
        return Err(corrupt_manifest(row, CheckpointManifestCorruption::HashMismatch));
    }
    let m = match decoded {
        None => {
            return Err(corrupt_manifest(row, CheckpointManifestCorruption::UndecodableBody));
        },
        Some(m) => m,
    };
    if validate_manifest_input(m).is_err() {
        return Err(corrupt_manifest(row, CheckpointManifestCorruption::InvalidManifest));
    }
    if !str_eq(m.checkpoint_id.as_str(), row.checkpoint_id.as_str()) {
        return Err(corrupt_manifest(row, CheckpointManifestCorruption::CheckpointIdMismatch));
    }
    if !str_eq(m.job_id.as_str(), row.job_id.as_str()) {
        return Err(corrupt_manifest(row, CheckpointManifestCorruption::JobIdMismatch));
    }
    if !str_eq(m.attempt_id.as_str(), row.attempt_id.as_str()) {
        return Err(corrupt_manifest(row, CheckpointManifestCorruption::AttemptIdMismatch));
    }
    if !str_eq(m.producer_node_id.as_str(), row.producer_node_id.as_str()) {
        return Err(corrupt_manifest(row, CheckpointManifestCorruption::ProducerNodeIdMismatch));
    }
    if !str_eq(row.verified_signer_id.as_str(), row.producer_node_id.as_str()) || !str_eq(
        row.verified_signer_id.as_str(),
        m.producer_node_id.as_str(),
    ) {
        return Err(corrupt_manifest(row, CheckpointManifestCorruption::SignerIdMismatch));
    }
    let fence = match decode_u64(row.fence_epoch.as_slice(), "fence_epoch") {
        Ok(v) => v,
        Err(_) => {
            return Err(corrupt_manifest(row, CheckpointManifestCorruption::FenceEpochEncoding));
        },
    };
    if m.fence_epoch != fence {
        return Err(corrupt_manifest(row, CheckpointManifestCorruption::FenceEpochMismatch));
    }
    let root = match stored_root {
        Some(d) => d,
        None => {
            return Err(corrupt_manifest(row, CheckpointManifestCorruption::RootDigestEncoding));
        },
    };
    if row.root_digest.len() == 0 || validate_root_digest(root).is_err() {
        return Err(corrupt_manifest(row, CheckpointManifestCorruption::RootDigestEncoding));
    }
    let stored = Some(DigestFacts { algorithm: root.algorithm, value: copy_bytes(&root.value) });
    if !same_digest(&m.root_digest, &stored) {
        return Err(corrupt_manifest(row, CheckpointManifestCorruption::RootDigestMismatch));
    }
    match attempt {
        AttemptLookup::Corrupt => {
            return Err(corrupt_manifest(row, CheckpointManifestCorruption::AttemptBinding));
        },
        AttemptLookup::Missing => {
            return Err(corrupt_manifest(row, CheckpointManifestCorruption::MissingAttempt));
        },
        AttemptLookup::Found(a) => {
            if !str_eq(a.job_id.as_str(), row.job_id.as_str()) {
                return Err(corrupt_manifest(row, CheckpointManifestCorruption::JobIdMismatch));
            }
            if !(a.node_ids.len() == 1 && str_eq(a.node_ids[0].as_str(), row.producer_node_id.as_str())) {
                return Err(corrupt_manifest(row, CheckpointManifestCorruption::ProducerNodeIdMismatch));
            }
            if a.fence_epoch != fence {
                return Err(corrupt_manifest(row, CheckpointManifestCorruption::FenceEpochMismatch));
            }
        },
    }
    Ok(
        StoredCheckpointManifestBinding {
            manifest_body: copy_bytes(&row.manifest_body),
            manifest_hash: hash,
            signer_id_at_submission: copy_string(&row.verified_signer_id),
            bound_checkpoint_id: copy_string(&row.checkpoint_id),
            bound_job_id: copy_string(&row.job_id),
            bound_attempt_id: copy_string(&row.attempt_id),
            bound_producer_node_id: copy_string(&row.producer_node_id),
            bound_fence_epoch: fence,
            bound_root_digest: copy_bytes(&row.root_digest),
        },
    )
}

/// The first stored manifest is the evidence: a replay of it returns it, a
/// different manifest under the same checkpoint id conflicts; neither
/// changes the store. A refused manifest stores nothing.
pub proof fn law_first_manifest_is_the_evidence(
    s: ManifestMap,
    m: CheckpointManifestFacts,
    signer_id: Seq<char>,
    body: Seq<u8>,
    hash: Seq<u8>,
    root: Seq<u8>,
    attempt: Option<StoredAttempt>,
    reservation: Option<StoredNodeReservation>,
    other_body: Seq<u8>,
)
    ensures
        ({
            let (s1, o1) = store_manifest_step(s, m, signer_id, body, hash, root, attempt, reservation);
            &&& (o1 matches ManifestOutcome::Stored(b, _) ==> ({
                let (s2, o2) = store_manifest_step(s1, m, signer_id, body, hash, root, attempt, reservation);
                s2 == s1 && o2 == ManifestOutcome::Stored(b, false)
            }))
            &&& (o1 is Stored && other_body != body ==> ({
                let (s2, o2) = store_manifest_step(s1, m, signer_id, other_body, hash, root, attempt, reservation);
                s2 == s1 && o2 == ManifestOutcome::Conflict(m.checkpoint_id@)
            }))
            &&& (!(o1 is Stored) ==> s1 == s)
        }),
{
}

impl CheckpointBindingField {
    /// The variant's name, as `{:?}` writes it.
    pub open spec fn debug_name(self) -> Seq<char> {
        match self {
            CheckpointBindingField::JobId => "JobId"@,
            CheckpointBindingField::AttemptId => "AttemptId"@,
            CheckpointBindingField::ProducerAndSigner => "ProducerAndSigner"@,
            CheckpointBindingField::FenceEpoch => "FenceEpoch"@,
            CheckpointBindingField::ReservationJobId => "ReservationJobId"@,
            CheckpointBindingField::ReservationAttemptId => "ReservationAttemptId"@,
        }
    }

    /// See `debug_name`.
    pub fn name(&self) -> (r: &'static str)
        ensures
            r@ == self.debug_name(),
    {
        match self {
            CheckpointBindingField::JobId => "JobId",
            CheckpointBindingField::AttemptId => "AttemptId",
            CheckpointBindingField::ProducerAndSigner => "ProducerAndSigner",
            CheckpointBindingField::FenceEpoch => "FenceEpoch",
            CheckpointBindingField::ReservationJobId => "ReservationJobId",
            CheckpointBindingField::ReservationAttemptId => "ReservationAttemptId",
        }
    }
}

impl CheckpointManifestCorruption {
    /// The variant's name, as `{:?}` writes it.
    pub open spec fn debug_name(self) -> Seq<char> {
        match self {
            CheckpointManifestCorruption::EmptyBody => "EmptyBody"@,
            CheckpointManifestCorruption::UndecodableBody => "UndecodableBody"@,
            CheckpointManifestCorruption::HashEncoding => "HashEncoding"@,
            CheckpointManifestCorruption::HashMismatch => "HashMismatch"@,
            CheckpointManifestCorruption::InvalidManifest => "InvalidManifest"@,
            CheckpointManifestCorruption::CheckpointIdMismatch => "CheckpointIdMismatch"@,
            CheckpointManifestCorruption::JobIdMismatch => "JobIdMismatch"@,
            CheckpointManifestCorruption::AttemptIdMismatch => "AttemptIdMismatch"@,
            CheckpointManifestCorruption::ProducerNodeIdMismatch => "ProducerNodeIdMismatch"@,
            CheckpointManifestCorruption::SignerIdMismatch => "SignerIdMismatch"@,
            CheckpointManifestCorruption::FenceEpochEncoding => "FenceEpochEncoding"@,
            CheckpointManifestCorruption::FenceEpochMismatch => "FenceEpochMismatch"@,
            CheckpointManifestCorruption::RootDigestEncoding => "RootDigestEncoding"@,
            CheckpointManifestCorruption::RootDigestMismatch => "RootDigestMismatch"@,
            CheckpointManifestCorruption::MissingAttempt => "MissingAttempt"@,
            CheckpointManifestCorruption::AttemptBinding => "AttemptBinding"@,
        }
    }

    /// See `debug_name`.
    pub fn name(&self) -> (r: &'static str)
        ensures
            r@ == self.debug_name(),
    {
        match self {
            CheckpointManifestCorruption::EmptyBody => "EmptyBody",
            CheckpointManifestCorruption::UndecodableBody => "UndecodableBody",
            CheckpointManifestCorruption::HashEncoding => "HashEncoding",
            CheckpointManifestCorruption::HashMismatch => "HashMismatch",
            CheckpointManifestCorruption::InvalidManifest => "InvalidManifest",
            CheckpointManifestCorruption::CheckpointIdMismatch => "CheckpointIdMismatch",
            CheckpointManifestCorruption::JobIdMismatch => "JobIdMismatch",
            CheckpointManifestCorruption::AttemptIdMismatch => "AttemptIdMismatch",
            CheckpointManifestCorruption::ProducerNodeIdMismatch => "ProducerNodeIdMismatch",
            CheckpointManifestCorruption::SignerIdMismatch => "SignerIdMismatch",
            CheckpointManifestCorruption::FenceEpochEncoding => "FenceEpochEncoding",
            CheckpointManifestCorruption::FenceEpochMismatch => "FenceEpochMismatch",
            CheckpointManifestCorruption::RootDigestEncoding => "RootDigestEncoding",
            CheckpointManifestCorruption::RootDigestMismatch => "RootDigestMismatch",
            CheckpointManifestCorruption::MissingAttempt => "MissingAttempt",
            CheckpointManifestCorruption::AttemptBinding => "AttemptBinding",
        }
    }
}

/// The text of a checkpoint-manifest store error.
pub open spec fn checkpoint_error_text(e: CheckpointManifestStoreError) -> Seq<char>
{
    match e {
        CheckpointManifestStoreError::InvalidInput(f) => "invalid CheckpointManifest input: "@ + f@,
        CheckpointManifestStoreError::AttemptNotFound { attempt_id } => "CheckpointManifest references missing Attempt: "@ + attempt_id@,
        CheckpointManifestStoreError::ReservationNotFound { node_id } => "CheckpointManifest producer has no current reservation: "@ + node_id@,
        CheckpointManifestStoreError::BindingMismatch(field) => "CheckpointManifest durable binding mismatch: "@ + field.debug_name(),
        CheckpointManifestStoreError::ManifestConflict { checkpoint_id } => "CheckpointManifest conflicts with first durable evidence: "@ + checkpoint_id@,
        CheckpointManifestStoreError::Corrupt { checkpoint_id, kind } => "durable CheckpointManifest is corrupt: checkpoint="@ + checkpoint_id@ + ", kind="@ + kind.debug_name(),
        CheckpointManifestStoreError::Staging(m) => "CheckpointManifest staging-state read failed: "@ + m@,
        CheckpointManifestStoreError::Io(m) => "CheckpointManifest store I/O error: "@ + m@,
        CheckpointManifestStoreError::LockTimeout => "CheckpointManifest store lock acquisition timed out"@,
    }
}

impl CheckpointManifestStoreError {
    /// The error's text.
    pub fn message(&self) -> (r: String)
        ensures
            r@ == checkpoint_error_text(*self),
    {
        match self {
            CheckpointManifestStoreError::InvalidInput(f) => {
                let mut r = String::from_str("invalid CheckpointManifest input: ");
                push_str(&mut r, f);
                r
            },
            CheckpointManifestStoreError::AttemptNotFound { attempt_id } => {
                let mut r = String::from_str("CheckpointManifest references missing Attempt: ");
                push_str(&mut r, attempt_id.as_str());
                r
            },
            CheckpointManifestStoreError::ReservationNotFound { node_id } => {
                let mut r = String::from_str("CheckpointManifest producer has no current reservation: ");
                push_str(&mut r, node_id.as_str());
                r
            },
            CheckpointManifestStoreError::BindingMismatch(field) => {
                let mut r = String::from_str("CheckpointManifest durable binding mismatch: ");
                push_str(&mut r, field.name());
                r
            },
            CheckpointManifestStoreError::ManifestConflict { checkpoint_id } => {
                let mut r = String::from_str("CheckpointManifest conflicts with first durable evidence: ");
                push_str(&mut r, checkpoint_id.as_str());
                r
            },
            CheckpointManifestStoreError::Corrupt { checkpoint_id, kind } => {
                let mut r = String::from_str("durable CheckpointManifest is corrupt: checkpoint=");
                push_str(&mut r, checkpoint_id.as_str());
                push_str(&mut r, ", kind=");
                push_str(&mut r, kind.name());
                r
            },
            CheckpointManifestStoreError::Staging(m) => {
                let mut r = String::from_str("CheckpointManifest staging-state read failed: ");
                push_str(&mut r, m.as_str());
                r
            },
            CheckpointManifestStoreError::Io(m) => {
                let mut r = String::from_str("CheckpointManifest store I/O error: ");
                push_str(&mut r, m.as_str());
                r
            },
            CheckpointManifestStoreError::LockTimeout => {
                let mut r = String::from_str("CheckpointManifest store lock acquisition timed out");
                r
            },
        }
    }
}


} // verus!
