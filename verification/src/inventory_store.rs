//! The Agent inventory repository: one registry row and at most one latest
//! inventory per node, the identity and revision rules that guard them, an
//! all-or-nothing bootstrap import, and the candidate pool they project to.
use vstd::prelude::*;

use crate::gpu_order::{sort_gpus, sorted_gpus};
use crate::inventory::{
    canonical_classes, class_list, class_seq, encode_inventory_payload, encode_registry, gpu_views, inventory_error,
    inventory_payload, lemma_class_list_set, registry_error, registry_payload, validate_inventory,
    validate_registry, AgentBootstrap, AgentInventory, AgentRegistry, GpuInventory, ImportBootstrapResult,
    InventoryStoreError, InventoryView, RegisterAgentResult, RegistryView, UpdateInventoryResult,
};
use crate::job_store::same_bytes;
use crate::table::{
    keys_unique, lemma_table_absent, lemma_table_at, lemma_table_index, lemma_table_push, lemma_table_same,
    lemma_table_update, table_map,
};
use crate::inventory::{
    GpuView, IsolationClass, KeyProtection, NodeState, RiskState, SecurityTier, WorkloadClass, opt_text,
};
use crate::text::{copy_string, lemma_lex_lt_total, lemma_lex_lt_transitive, lex_lt, str_eq, str_lt};

verus! {

/// An inventory with its GPUs in canonical order.
pub open spec fn normalized(inv: InventoryView) -> InventoryView {
    InventoryView {
        node_id: inv.node_id,
        inventory_revision: inv.inventory_revision,
        observed_at_unix_ms: inv.observed_at_unix_ms,
        gpus: match inv.gpus {
            Some(g) => Some(sorted_gpus(g)),
            None => None,
        },
        available_cpu_cores: inv.available_cpu_cores,
        available_ram_bytes: inv.available_ram_bytes,
        available_workspace_bytes: inv.available_workspace_bytes,
        allowed_workload_classes: inv.allowed_workload_classes,
        third_party_workloads_opt_in: inv.third_party_workloads_opt_in,
    }
}

/// The allowed classes are held in ascending order, each once.
pub open spec fn classes_canonical(inv: AgentInventory) -> bool {
    inv.allowed_workload_classes matches Some(w) ==> w@ == class_list(w@.to_set())
}

/// A candidate lists its allowed classes in ascending order, each once.
pub open spec fn candidate_classes_canonical(c: CandidateSnapshot) -> bool {
    c.allowed_workload_classes matches Some(w) ==> w@ == class_list(w@.to_set())
}

/// Puts the GPUs into canonical order and the classes into ascending order,
/// then validates; an input error is found before any stored row is read.
pub fn normalized_and_validated(inventory: &AgentInventory) -> (r: Result<AgentInventory, InventoryStoreError>)
    ensures
        match inventory_error(normalized(inventory@)) {
            None => r matches Ok(n) && n@ == normalized(inventory@) && classes_canonical(n),
            Some(f) => r == Err::<AgentInventory, InventoryStoreError>(InventoryStoreError::InvalidInput(f)),
        },
{
    let gpus = match &inventory.gpus {
        Some(g) => Some(sort_gpus(g)),
        None => None,
    };
    let classes = match &inventory.allowed_workload_classes {
        Some(w) => {
            let c = canonical_classes(w);
            proof {
                lemma_class_list_set(w@.to_set());
            }
            Some(c)
        },
        None => None,
    };
    let n = AgentInventory {
        node_id: copy_string(&inventory.node_id),
        inventory_revision: inventory.inventory_revision,
        observed_at_unix_ms: inventory.observed_at_unix_ms,
        gpus,
        available_cpu_cores: inventory.available_cpu_cores,
        available_ram_bytes: inventory.available_ram_bytes,
        available_workspace_bytes: inventory.available_workspace_bytes,
        allowed_workload_classes: classes,
        third_party_workloads_opt_in: inventory.third_party_workloads_opt_in,
    };
    assert(n@ == normalized(inventory@));
    match validate_inventory(&n) {
        Ok(()) => Ok(n),
        Err(f) => Err(InventoryStoreError::InvalidInput(f)),
    }
}

/// The store as values: registries and latest inventories by node id.
pub struct InventoryStoreView {
    pub agents: Map<Seq<char>, RegistryView>,
    pub inventories: Map<Seq<char>, InventoryView>,
}

/// Why a write was refused, as values.
pub enum StoreFailure {
    Rejected(InventoryStoreError),
    MissingAgent(Seq<char>),
}

pub open spec fn failure_of(e: InventoryStoreError) -> StoreFailure {
    match e {
        InventoryStoreError::AgentNotFound { node_id } => StoreFailure::MissingAgent(node_id@),
        _ => StoreFailure::Rejected(e),
    }
}

/// Some registered Agent already has this device id.
pub open spec fn device_taken(s: InventoryStoreView, device_id: Seq<char>) -> bool {
    exists|k: Seq<char>| #[trigger] s.agents.contains_key(k) && s.agents[k].device_id == device_id
}

/// Some registered Agent already has this verifying key.
pub open spec fn key_taken(s: InventoryStoreView, key: Seq<u8>) -> bool {
    exists|k: Seq<char>| #[trigger] s.agents.contains_key(k) && s.agents[k].verifying_key == key
}

/// What registering does. A registry is immutable: a retry with the same
/// normalized payload returns the stored row, any other registry under the
/// node id conflicts, and a new node may not reuse a device id or key.
/// Any refusal changes nothing.
pub open spec fn register_step(s: InventoryStoreView, r: RegistryView) -> (
    InventoryStoreView,
    Result<(RegistryView, bool), InventoryStoreError>,
) {
    if registry_error(r) is Some {
        (s, Err(InventoryStoreError::InvalidInput(registry_error(r)->0)))
    } else if s.agents.contains_key(r.node_id) {
        if registry_payload(s.agents[r.node_id]) == registry_payload(r) {
            (s, Ok((s.agents[r.node_id], false)))
        } else {
            (s, Err(InventoryStoreError::RegistryConflict { field: "node_id" }))
        }
    } else if device_taken(s, r.device_id) {
        (s, Err(InventoryStoreError::RegistryConflict { field: "device_id" }))
    } else if key_taken(s, r.verifying_key) {
        (s, Err(InventoryStoreError::RegistryConflict { field: "verifying_key" }))
    } else {
        (InventoryStoreView { agents: s.agents.insert(r.node_id, r), inventories: s.inventories }, Ok((r, true)))
    }
}

/// What replacing an inventory does, on its normalized form. It needs a
/// registered Agent; a lower revision is refused; the same revision is a
/// retry when the normalized payload is the same and a conflict otherwise; a
/// higher one replaces the stored inventory. Any refusal changes nothing.
pub open spec fn update_step(s: InventoryStoreView, inv: InventoryView) -> (
    InventoryStoreView,
    Result<(InventoryView, bool), StoreFailure>,
) {
    let n = normalized(inv);
    if inventory_error(n) is Some {
        (s, Err(StoreFailure::Rejected(InventoryStoreError::InvalidInput(inventory_error(n)->0))))
    } else if !s.agents.contains_key(n.node_id) {
        (s, Err(StoreFailure::MissingAgent(n.node_id)))
    } else if s.inventories.contains_key(n.node_id) && n.inventory_revision
        < s.inventories[n.node_id].inventory_revision {
        (
            s,
            Err(
                StoreFailure::Rejected(
                    InventoryStoreError::LowerRevision {
                        stored: s.inventories[n.node_id].inventory_revision,
                        requested: n.inventory_revision,
                    },
                ),
            ),
        )
    } else if s.inventories.contains_key(n.node_id) && n.inventory_revision
        == s.inventories[n.node_id].inventory_revision {
        if inventory_payload(n) == inventory_payload(s.inventories[n.node_id]) {
            (s, Ok((s.inventories[n.node_id], false)))
        } else {
            (
                s,
                Err(StoreFailure::Rejected(InventoryStoreError::RevisionConflict { revision: n.inventory_revision })),
            )
        }
    } else {
        (InventoryStoreView { agents: s.agents, inventories: s.inventories.insert(n.node_id, n) }, Ok((n, true)))
    }
}

pub open spec fn register_outcome(r: Result<RegisterAgentResult, InventoryStoreError>) -> Result<
    (RegistryView, bool),
    InventoryStoreError,
> {
    match r {
        Ok(x) => Ok((x.registry@, x.created)),
        Err(e) => Err(e),
    }
}

pub open spec fn update_outcome(r: Result<UpdateInventoryResult, InventoryStoreError>) -> Result<
    (InventoryView, bool),
    StoreFailure,
> {
    match r {
        Ok(x) => Ok((x.inventory@, x.updated)),
        Err(e) => Err(failure_of(e)),
    }
}

/// What is wrong with one bootstrap entry on its own: its two halves name
/// different nodes, or either half is invalid.
pub open spec fn entry_input_error(reg: RegistryView, inv: InventoryView) -> Option<&'static str> {
    if reg.node_id != inv.node_id {
        Some("registry/inventory node_id mismatch")
    } else if registry_error(reg) is Some {
        registry_error(reg)
    } else {
        inventory_error(normalized(inv))
    }
}

pub open spec fn entries_view(e: Seq<AgentBootstrap>) -> Seq<(RegistryView, InventoryView)> {
    Seq::new(e.len(), |i: int| (e[i].registry@, e[i].inventory@))
}

/// The first entry among the first `n` that is wrong on its own.
pub open spec fn first_input_error(es: Seq<(RegistryView, InventoryView)>, n: int) -> Option<(int, &'static str)>
    decreases n,
{
    if n <= 0 {
        None
    } else {
        match first_input_error(es, n - 1) {
            Some(x) => Some(x),
            None => match entry_input_error(es[n - 1].0, es[n - 1].1) {
                Some(f) => Some((n - 1, f)),
                None => None,
            },
        }
    }
}

/// Registering, then replacing the inventory of, the first `n` entries in
/// turn: the state reached and how many registrations and inventories were
/// new, or the first entry refused and why.
/// Registering one entry, then replacing its inventory: the state reached
/// and whether each was new, or why it was refused.
pub open spec fn entry_step(s: InventoryStoreView, reg: RegistryView, inv: InventoryView) -> Result<
    (InventoryStoreView, bool, bool),
    StoreFailure,
> {
    let (s2, rr) = register_step(s, reg);
    match rr {
        Err(e) => Err(StoreFailure::Rejected(e)),
        Ok((_, created)) => {
            let (s3, ur) = update_step(s2, inv);
            match ur {
                Err(f) => Err(f),
                Ok((_, updated)) => Ok((s3, created, updated)),
            }
        },
    }
}

/// The state an entry leaves, or the state unchanged when it is refused.
pub open spec fn entry_state(s: InventoryStoreView, reg: RegistryView, inv: InventoryView) -> InventoryStoreView {
    match entry_step(s, reg, inv) {
        Ok((s3, _, _)) => s3,
        Err(_) => s,
    }
}

/// The state the first `n` entries reach, or the state unchanged when one
/// is refused.
pub open spec fn applied_state(s: InventoryStoreView, es: Seq<(RegistryView, InventoryView)>, n: int) -> InventoryStoreView {
    match apply_entries(s, es, n) {
        Ok((s2, _, _)) => s2,
        Err(_) => s,
    }
}

pub open spec fn count(b: bool) -> nat {
    if b {
        1
    } else {
        0
    }
}

pub open spec fn apply_entries(s: InventoryStoreView, es: Seq<(RegistryView, InventoryView)>, n: int) -> Result<
    (InventoryStoreView, nat, nat),
    (int, StoreFailure),
>
    decreases n,
{
    if n <= 0 {
        Ok((s, 0, 0))
    } else {
        match apply_entries(s, es, n - 1) {
            Err(e) => Err(e),
            Ok((s1, a, b)) => match entry_step(s1, es[n - 1].0, es[n - 1].1) {
                Err(f) => Err((n - 1, f)),
                Ok((s3, c, u)) => Ok((s3, a + count(c), b + count(u))),
            },
        }
    }
}

/// What a bootstrap import does: every entry is first judged on its own;
/// then all are applied in order as one change. Either every entry lands,
/// with the counts of new registrations and replaced inventories, or the
/// first refused entry is named and nothing changes.
pub open spec fn import_step(s: InventoryStoreView, es: Seq<(RegistryView, InventoryView)>) -> (
    InventoryStoreView,
    Result<(nat, nat, nat), (int, StoreFailure)>,
) {
    match first_input_error(es, es.len() as int) {
        Some((i, f)) => (s, Err((i, StoreFailure::Rejected(InventoryStoreError::InvalidInput(f))))),
        None => match apply_entries(s, es, es.len() as int) {
            Err(e) => (s, Err(e)),
            Ok((s2, a, b)) => (s2, Ok((a, b, es.len()))),
        },
    }
}

pub open spec fn import_outcome(r: Result<ImportBootstrapResult, InventoryStoreError>) -> Result<
    (nat, nat, nat),
    (int, StoreFailure),
> {
    match r {
        Ok(x) => Ok((x.registered as nat, x.inventories_updated as nat, x.entries as nat)),
        Err(InventoryStoreError::BootstrapEntry { index, node_id, source }) => Err((index as int, failure_of(*source))),
        Err(e) => Err((-1, failure_of(e))),
    }
}

proof fn lemma_first_input_error_sticks(es: Seq<(RegistryView, InventoryView)>, i: int, n: int)
    requires
        0 <= i < n,
        first_input_error(es, i + 1) is Some,
    ensures
        first_input_error(es, n) == first_input_error(es, i + 1),
    decreases n,
{
    if n > i + 1 {
        lemma_first_input_error_sticks(es, i, n - 1);
    }
}

proof fn lemma_apply_sticks(s: InventoryStoreView, es: Seq<(RegistryView, InventoryView)>, i: int, n: int)
    requires
        0 <= i < n,
        apply_entries(s, es, i + 1) is Err,
    ensures
        apply_entries(s, es, n) == apply_entries(s, es, i + 1),
    decreases n,
{
    if n > i + 1 {
        lemma_apply_sticks(s, es, i, n - 1);
    }
}

/// A GPU as the scheduler sees it.
#[derive(Debug, Clone, PartialEq, Eq)]
pub struct GpuSnapshot {
    pub gpu_id: String,
    pub healthy: Option<bool>,
    pub available_vram_bytes: Option<u64>,
    pub model: Option<String>,
}

impl View for GpuSnapshot {
    type V = GpuView;

    open spec fn view(&self) -> GpuView {
        GpuView {
            gpu_id: self.gpu_id@,
            model: opt_text(self.model),
            healthy: self.healthy,
            available_vram_bytes: self.available_vram_bytes,
        }
    }
}

/// One Agent as the scheduler sees it: its registry facts and, when it has
/// reported one, its latest inventory; a fact never reported stays `None`.
#[derive(Debug, Clone, PartialEq, Eq)]
pub struct CandidateSnapshot {
    pub node_id: String,
    pub inventory_revision: Option<u64>,
    pub owner_member_id: Option<String>,
    pub node_state: Option<NodeState>,
    pub risk_state: Option<RiskState>,
    pub observed_at_unix_ms: Option<u64>,
    pub security_tier: Option<SecurityTier>,
    pub isolation_class: Option<IsolationClass>,
    pub key_protection: Option<KeyProtection>,
    pub gpus: Option<Vec<GpuSnapshot>>,
    pub available_cpu_cores: Option<u32>,
    pub available_ram_bytes: Option<u64>,
    pub available_workspace_bytes: Option<u64>,
    pub allowed_workload_classes: Option<Vec<WorkloadClass>>,
    pub third_party_workloads_opt_in: Option<bool>,
}

pub struct CandidateView {
    pub node_id: Seq<char>,
    pub inventory_revision: Option<u64>,
    pub owner_member_id: Option<Seq<char>>,
    pub node_state: Option<NodeState>,
    pub risk_state: Option<RiskState>,
    pub observed_at_unix_ms: Option<u64>,
    pub security_tier: Option<SecurityTier>,
    pub isolation_class: Option<IsolationClass>,
    pub key_protection: Option<KeyProtection>,
    pub gpus: Option<Seq<GpuView>>,
    pub available_cpu_cores: Option<u32>,
    pub available_ram_bytes: Option<u64>,
    pub available_workspace_bytes: Option<u64>,
    pub allowed_workload_classes: Option<Set<WorkloadClass>>,
    pub third_party_workloads_opt_in: Option<bool>,
}

pub open spec fn snapshot_views(g: Seq<GpuSnapshot>) -> Seq<GpuView> {
    Seq::new(g.len(), |i: int| g[i]@)
}

impl View for CandidateSnapshot {
    type V = CandidateView;

    open spec fn view(&self) -> CandidateView {
        CandidateView {
            node_id: self.node_id@,
            inventory_revision: self.inventory_revision,
            owner_member_id: opt_text(self.owner_member_id),
            node_state: self.node_state,
            risk_state: self.risk_state,
            observed_at_unix_ms: self.observed_at_unix_ms,
            security_tier: self.security_tier,
            isolation_class: self.isolation_class,
            key_protection: self.key_protection,
            gpus: match self.gpus {
                Some(g) => Some(snapshot_views(g@)),
                None => None,
            },
            available_cpu_cores: self.available_cpu_cores,
            available_ram_bytes: self.available_ram_bytes,
            available_workspace_bytes: self.available_workspace_bytes,
            allowed_workload_classes: match self.allowed_workload_classes {
                Some(w) => Some(w@.to_set()),
                None => None,
            },
            third_party_workloads_opt_in: self.third_party_workloads_opt_in,
        }
    }
}

/// The candidate pool at one evaluation time.
#[derive(Debug, Clone, PartialEq, Eq)]
pub struct PoolSnapshot {
    pub evaluated_at_unix_ms: u64,
    pub candidates: Vec<CandidateSnapshot>,
}

/// The candidate an Agent projects to: identity and scheduler facts from its
/// registry, everything else from its inventory, or unknown without one.
pub open spec fn project(reg: RegistryView, inv: Option<InventoryView>) -> CandidateView {
    match inv {
        Some(i) => CandidateView {
            node_id: reg.node_id,
            inventory_revision: Some(i.inventory_revision),
            owner_member_id: Some(reg.owner_member_id),
            node_state: reg.node_state,
            risk_state: reg.risk_state,
            observed_at_unix_ms: Some(i.observed_at_unix_ms),
            security_tier: reg.security_tier,
            isolation_class: reg.isolation_class,
            key_protection: reg.key_protection,
            gpus: i.gpus,
            available_cpu_cores: i.available_cpu_cores,
            available_ram_bytes: i.available_ram_bytes,
            available_workspace_bytes: i.available_workspace_bytes,
            allowed_workload_classes: i.allowed_workload_classes,
            third_party_workloads_opt_in: i.third_party_workloads_opt_in,
        },
        None => CandidateView {
            node_id: reg.node_id,
            inventory_revision: None,
            owner_member_id: Some(reg.owner_member_id),
            node_state: reg.node_state,
            risk_state: reg.risk_state,
            observed_at_unix_ms: None,
            security_tier: reg.security_tier,
            isolation_class: reg.isolation_class,
            key_protection: reg.key_protection,
            gpus: None,
            available_cpu_cores: None,
            available_ram_bytes: None,
            available_workspace_bytes: None,
            allowed_workload_classes: None,
            third_party_workloads_opt_in: None,
        },
    }
}

/// Every candidate of the pool carries its Agent's facts field for field:
/// identity and scheduler facts from the registry, and, when the Agent has
/// reported an inventory, each inventory fact from the latest one (its
/// revision, observation time, GPUs, CPU cores, RAM, workspace, allowed
/// classes and third-party opt-in); without one, every inventory fact is
/// unknown.
pub proof fn law_pool_candidates_carry_their_facts(c: Seq<CandidateView>, s: InventoryStoreView, n: int)
    requires
        is_pool_of(c, s),
        0 <= n < c.len(),
    ensures
        ({
            let x = c[n];
            let k = x.node_id;
            let reg = s.agents[k];
            &&& s.agents.contains_key(k)
            &&& x.owner_member_id == Some(reg.owner_member_id)
            &&& x.node_state == reg.node_state && x.risk_state == reg.risk_state
            &&& x.security_tier == reg.security_tier && x.isolation_class == reg.isolation_class
            &&& x.key_protection == reg.key_protection
            &&& if s.inventories.contains_key(k) {
                let inv = s.inventories[k];
                &&& x.inventory_revision == Some(inv.inventory_revision)
                &&& x.observed_at_unix_ms == Some(inv.observed_at_unix_ms)
                &&& x.gpus == inv.gpus
                &&& x.available_cpu_cores == inv.available_cpu_cores
                &&& x.available_ram_bytes == inv.available_ram_bytes
                &&& x.available_workspace_bytes == inv.available_workspace_bytes
                &&& x.allowed_workload_classes == inv.allowed_workload_classes
                &&& x.third_party_workloads_opt_in == inv.third_party_workloads_opt_in
            } else {
                &&& x.inventory_revision is None && x.observed_at_unix_ms is None && x.gpus is None
                &&& x.available_cpu_cores is None && x.available_ram_bytes is None
                &&& x.available_workspace_bytes is None && x.allowed_workload_classes is None
                &&& x.third_party_workloads_opt_in is None
            }
        }),
{
    assert(s.agents.contains_key(c[n].node_id));
}

pub open spec fn opt_inventory(i: Option<AgentInventory>) -> Option<InventoryView> {
    match i {
        Some(x) => Some(x@),
        None => None,
    }
}

fn snapshot_gpus(g: Vec<GpuInventory>) -> (r: Vec<GpuSnapshot>)
    ensures
        snapshot_views(r@) == gpu_views(g@),
{
    let mut r: Vec<GpuSnapshot> = Vec::new();
    let mut i: usize = 0;
    while i < g.len()
        invariant
            i <= g@.len(),
            r@.len() == i,
            forall|j: int| 0 <= j < i ==> (#[trigger] r@[j])@ == g@[j]@,
        decreases g@.len() - i,
    {
        let x = g[i].copied();
        r.push(GpuSnapshot { gpu_id: x.gpu_id, healthy: x.healthy, available_vram_bytes: x.available_vram_bytes, model: x.model });
        i = i + 1;
    }
    assert(snapshot_views(r@) =~= gpu_views(g@));
    r
}

/// The candidate of one Agent (see `project`).
pub fn project_candidate(registry: AgentRegistry, inventory: Option<AgentInventory>) -> (r: CandidateSnapshot)
    ensures
        r@ == project(registry@, opt_inventory(inventory)),
        r.allowed_workload_classes == match inventory {
            Some(inv) => inv.allowed_workload_classes,
            None => None,
        },
{
    match inventory {
        Some(inv) => CandidateSnapshot {
            node_id: registry.node_id,
            inventory_revision: Some(inv.inventory_revision),
            owner_member_id: Some(registry.owner_member_id),
            node_state: registry.node_state,
            risk_state: registry.risk_state,
            observed_at_unix_ms: Some(inv.observed_at_unix_ms),
            security_tier: registry.security_tier,
            isolation_class: registry.isolation_class,
            key_protection: registry.key_protection,
            gpus: match inv.gpus {
                Some(g) => Some(snapshot_gpus(g)),
                None => None,
            },
            available_cpu_cores: inv.available_cpu_cores,
            available_ram_bytes: inv.available_ram_bytes,
            available_workspace_bytes: inv.available_workspace_bytes,
            allowed_workload_classes: inv.allowed_workload_classes,
            third_party_workloads_opt_in: inv.third_party_workloads_opt_in,
        },
        None => CandidateSnapshot {
            node_id: registry.node_id,
            inventory_revision: None,
            owner_member_id: Some(registry.owner_member_id),
            node_state: registry.node_state,
            risk_state: registry.risk_state,
            observed_at_unix_ms: None,
            security_tier: registry.security_tier,
            isolation_class: registry.isolation_class,
            key_protection: registry.key_protection,
            gpus: None,
            available_cpu_cores: None,
            available_ram_bytes: None,
            available_workspace_bytes: None,
            allowed_workload_classes: None,
            third_party_workloads_opt_in: None,
        },
    }
}

/// The pool: one candidate per registered Agent, in strictly ascending
/// node id order, each the projection of that Agent's registry and latest
/// inventory.
pub open spec fn is_pool_of(c: Seq<CandidateView>, s: InventoryStoreView) -> bool {
    &&& forall|i: int, j: int| 0 <= i < j < c.len() ==> lex_lt(#[trigger] c[i].node_id, #[trigger] c[j].node_id)
    &&& forall|k: Seq<char>| #[trigger] s.agents.contains_key(k) ==> exists|i: int| 0 <= i < c.len() && (#[trigger] c[i]).node_id == k
    &&& forall|i: int| #![trigger c[i]] 0 <= i < c.len() ==> s.agents.contains_key(c[i].node_id) && c[i] == project(
        s.agents[c[i].node_id],
        if s.inventories.contains_key(c[i].node_id) {
            Some(s.inventories[c[i].node_id])
        } else {
            None
        },
    )
}

pub open spec fn candidate_views(c: Seq<CandidateSnapshot>) -> Seq<CandidateView> {
    Seq::new(c.len(), |i: int| c[i]@)
}

/// Where a candidate with a new node id goes among candidates in strictly
/// ascending node id order.
fn candidate_position(c: &Vec<CandidateSnapshot>, node: &str) -> (p: usize)
    requires
        forall|i: int, j: int| 0 <= i < j < c@.len() ==> lex_lt(#[trigger] c@[i].node_id@, #[trigger] c@[j].node_id@),
        forall|i: int| 0 <= i < c@.len() ==> (#[trigger] c@[i]).node_id@ != node@,
    ensures
        p <= c@.len(),
        forall|j: int| 0 <= j < p ==> lex_lt((#[trigger] c@[j]).node_id@, node@),
        forall|j: int| p <= j < c@.len() ==> lex_lt(node@, (#[trigger] c@[j]).node_id@),
{
    let mut p: usize = 0;
    while p < c.len() && !str_lt(node, c[p].node_id.as_str())
        invariant
            p <= c@.len(),
            forall|i: int| 0 <= i < c@.len() ==> (#[trigger] c@[i]).node_id@ != node@,
            forall|j: int| 0 <= j < p ==> lex_lt((#[trigger] c@[j]).node_id@, node@),
        decreases c@.len() - p,
    {
        proof {
            lemma_lex_lt_total(c@[p as int].node_id@, node@);
        }
        p = p + 1;
    }
    if p < c.len() {
        assert forall|j: int| p <= j < c@.len() implies lex_lt(node@, (#[trigger] c@[j]).node_id@) by {
            if j > p {
                lemma_lex_lt_transitive(node@, c@[p as int].node_id@, c@[j].node_id@);
            }
        }
    }
    p
}

spec fn agent_key() -> spec_fn(AgentRegistry) -> Seq<char> {
    |r: AgentRegistry| r.node_id@
}

spec fn agent_val() -> spec_fn(AgentRegistry) -> RegistryView {
    |r: AgentRegistry| r@
}

spec fn inv_key() -> spec_fn(AgentInventory) -> Seq<char> {
    |i: AgentInventory| i.node_id@
}

spec fn inv_val() -> spec_fn(AgentInventory) -> InventoryView {
    |i: AgentInventory| i@
}

/// The registries and latest inventories of the Agents.
pub struct CoordinatorInventoryStore {
    agents: Vec<AgentRegistry>,
    inventories: Vec<AgentInventory>,
}

#[verifier::opaque]
spec fn prefix_sorted(c: Seq<CandidateSnapshot>) -> bool {
    forall|a: int, b: int| 0 <= a < b < c.len() ==> lex_lt(#[trigger] c[a].node_id@, #[trigger] c[b].node_id@)
}

#[verifier::opaque]
spec fn prefix_from(c: Seq<CandidateSnapshot>, agents: Seq<AgentRegistry>, n: int) -> bool {
    forall|a: int| 0 <= a < c.len() ==> exists|j: int| 0 <= j < n && (#[trigger] agents[j]).node_id@
        == (#[trigger] c[a]).node_id@
}

#[verifier::opaque]
spec fn prefix_covers(c: Seq<CandidateSnapshot>, agents: Seq<AgentRegistry>, n: int) -> bool {
    forall|j: int| 0 <= j < n ==> exists|a: int| 0 <= a < c.len() && (#[trigger] c[a]).node_id@
        == (#[trigger] agents[j]).node_id@
}

pub open spec fn projects_from(x: CandidateSnapshot, s: InventoryStoreView) -> bool {
    s.agents.contains_key(x.node_id@) && x@ == project(
        s.agents[x.node_id@],
        if s.inventories.contains_key(x.node_id@) {
            Some(s.inventories[x.node_id@])
        } else {
            None
        },
    )
}

#[verifier::opaque]
spec fn prefix_projects(c: Seq<CandidateSnapshot>, s: InventoryStoreView) -> bool {
    forall|a: int| 0 <= a < c.len() ==> projects_from(#[trigger] c[a], s)
}

/// The candidates made from the first `n` registry rows.
spec fn pool_prefix(c: Seq<CandidateSnapshot>, s: InventoryStoreView, agents: Seq<AgentRegistry>, n: int) -> bool {
    &&& prefix_sorted(c)
    &&& prefix_from(c, agents, n)
    &&& prefix_covers(c, agents, n)
    &&& prefix_projects(c, s)
}

proof fn lemma_pool_empty(s: InventoryStoreView, agents: Seq<AgentRegistry>)
    ensures
        pool_prefix(Seq::empty(), s, agents, 0),
{
    reveal(prefix_sorted);
    reveal(prefix_from);
    reveal(prefix_covers);
    reveal(prefix_projects);
}

proof fn lemma_pool_sorted(c: Seq<CandidateSnapshot>, s: InventoryStoreView, agents: Seq<AgentRegistry>, n: int)
    requires
        pool_prefix(c, s, agents, n),
    ensures
        forall|i: int, j: int| 0 <= i < j < c.len() ==> lex_lt(#[trigger] c[i].node_id@, #[trigger] c[j].node_id@),
{
    reveal(prefix_sorted);
}

/// The next row's node id is not yet among the candidates.
proof fn lemma_pool_fresh(c: Seq<CandidateSnapshot>, s: InventoryStoreView, agents: Seq<AgentRegistry>, n: int)
    requires
        pool_prefix(c, s, agents, n),
        keys_unique(agents, agent_key()),
        0 <= n < agents.len(),
    ensures
        forall|a: int| 0 <= a < c.len() ==> (#[trigger] c[a]).node_id@ != agents[n].node_id@,
{
    reveal(prefix_from);
    assert forall|a: int| 0 <= a < c.len() implies (#[trigger] c[a]).node_id@ != agents[n].node_id@ by {
        let j = choose|j: int| 0 <= j < n && (#[trigger] agents[j]).node_id@ == c[a].node_id@;
        assert(agent_key()(agents[j]) == agent_key()(agents[n]) ==> j == n);
    }
}

proof fn lemma_insert_sorted_candidates(before: Seq<CandidateSnapshot>, p: int, x: CandidateSnapshot)
    requires
        prefix_sorted(before),
        0 <= p <= before.len(),
        forall|j: int| 0 <= j < p ==> lex_lt((#[trigger] before[j]).node_id@, x.node_id@),
        forall|j: int| p <= j < before.len() ==> lex_lt(x.node_id@, (#[trigger] before[j]).node_id@),
    ensures
        prefix_sorted(before.insert(p, x)),
{
    reveal(prefix_sorted);
    before.insert_ensures(p, x);
    let w = before.insert(p, x);
    assert forall|a: int, b: int| 0 <= a < b < w.len() implies lex_lt(
        #[trigger] w[a].node_id@,
        #[trigger] w[b].node_id@,
    ) by {
        if b < p {
        } else if b == p {
        } else if a < p {
            assert(w[b] == before[b - 1]);
            lemma_lex_lt_transitive(w[a].node_id@, x.node_id@, w[b].node_id@);
        } else if a == p {
            assert(w[b] == before[b - 1]);
        } else {
            assert(w[a] == before[a - 1] && w[b] == before[b - 1]);
        }
    }
}

proof fn lemma_insert_from(before: Seq<CandidateSnapshot>, agents: Seq<AgentRegistry>, n: int, p: int, x: CandidateSnapshot)
    requires
        prefix_from(before, agents, n),
        0 <= n < agents.len(),
        x.node_id@ == agents[n].node_id@,
        0 <= p <= before.len(),
    ensures
        prefix_from(before.insert(p, x), agents, n + 1),
{
    reveal(prefix_from);
    before.insert_ensures(p, x);
    let w = before.insert(p, x);
    assert forall|a: int| 0 <= a < w.len() implies exists|j: int| 0 <= j < n + 1 && (#[trigger] agents[j]).node_id@
        == (#[trigger] w[a]).node_id@ by {
        if a < p {
            assert(w[a] == before[a]);
        } else if a == p {
            assert(agents[n].node_id@ == w[a].node_id@);
        } else {
            assert(w[a] == before[a - 1]);
        }
    }
}

proof fn lemma_insert_covers(before: Seq<CandidateSnapshot>, agents: Seq<AgentRegistry>, n: int, p: int, x: CandidateSnapshot)
    requires
        prefix_covers(before, agents, n),
        0 <= n < agents.len(),
        x.node_id@ == agents[n].node_id@,
        0 <= p <= before.len(),
    ensures
        prefix_covers(before.insert(p, x), agents, n + 1),
{
    reveal(prefix_covers);
    before.insert_ensures(p, x);
    let w = before.insert(p, x);
    assert forall|j: int| 0 <= j < n + 1 implies exists|a: int| 0 <= a < w.len() && (#[trigger] w[a]).node_id@
        == (#[trigger] agents[j]).node_id@ by {
        if j == n {
            assert(w[p] == x);
        } else {
            let a = choose|a: int| 0 <= a < before.len() && (#[trigger] before[a]).node_id@ == (
            #[trigger] agents[j]).node_id@;
            if a < p {
                assert(w[a] == before[a]);
            } else {
                assert(w[a + 1] == before[a]);
            }
        }
    }
}

proof fn lemma_insert_projects(before: Seq<CandidateSnapshot>, s: InventoryStoreView, p: int, x: CandidateSnapshot)
    requires
        prefix_projects(before, s),
        projects_from(x, s),
        0 <= p <= before.len(),
    ensures
        prefix_projects(before.insert(p, x), s),
{
    reveal(prefix_projects);
    before.insert_ensures(p, x);
    let w = before.insert(p, x);
    assert forall|a: int| 0 <= a < w.len() implies projects_from(#[trigger] w[a], s) by {
        if a < p {
            assert(w[a] == before[a]);
        } else if a > p {
            assert(w[a] == before[a - 1]);
        }
    }
}

proof fn lemma_pool_insert(
    before: Seq<CandidateSnapshot>,
    s: InventoryStoreView,
    agents: Seq<AgentRegistry>,
    n: int,
    p: int,
    x: CandidateSnapshot,
)
    requires
        pool_prefix(before, s, agents, n),
        0 <= n < agents.len(),
        x.node_id@ == agents[n].node_id@,
        projects_from(x, s),
        0 <= p <= before.len(),
        forall|j: int| 0 <= j < p ==> lex_lt((#[trigger] before[j]).node_id@, x.node_id@),
        forall|j: int| p <= j < before.len() ==> lex_lt(x.node_id@, (#[trigger] before[j]).node_id@),
    ensures
        pool_prefix(before.insert(p, x), s, agents, n + 1),
{
    lemma_insert_sorted_candidates(before, p, x);
    lemma_insert_from(before, agents, n, p, x);
    lemma_insert_covers(before, agents, n, p, x);
    lemma_insert_projects(before, s, p, x);
}

proof fn lemma_pool_done(c: Seq<CandidateSnapshot>, s: InventoryStoreView, agents: Seq<AgentRegistry>)
    requires
        pool_prefix(c, s, agents, agents.len() as int),
        keys_unique(agents, agent_key()),
        s.agents == table_map(agents, agent_key(), agent_val()),
    ensures
        is_pool_of(candidate_views(c), s),
{
    reveal(prefix_sorted);
    reveal(prefix_covers);
    reveal(prefix_projects);
    let cv = candidate_views(c);
    assert forall|k: Seq<char>| #[trigger] s.agents.contains_key(k) implies exists|a: int| 0 <= a < cv.len() && (
    #[trigger] cv[a]).node_id == k by {
        let j = lemma_table_index(agents, agent_key(), agent_val(), k);
        let a = choose|a: int| 0 <= a < c.len() && (#[trigger] c[a]).node_id@ == (#[trigger] agents[j]).node_id@;
        assert(cv[a] == c[a]@);
    }
    assert forall|a: int, b: int| 0 <= a < b < cv.len() implies lex_lt(#[trigger] cv[a].node_id, #[trigger] cv[b].node_id) by {
        assert(cv[a] == c[a]@ && cv[b] == c[b]@);
    }
    assert forall|a: int| #![trigger cv[a]] 0 <= a < cv.len() implies s.agents.contains_key(cv[a].node_id) && cv[a]
        == project(
        s.agents[cv[a].node_id],
        if s.inventories.contains_key(cv[a].node_id) {
            Some(s.inventories[cv[a].node_id])
        } else {
            None
        },
    ) by {
        assert(cv[a] == c[a]@);
        assert(projects_from(c[a], s));
    }
}

impl View for CoordinatorInventoryStore {
    type V = InventoryStoreView;

    closed spec fn view(&self) -> InventoryStoreView {
        InventoryStoreView {
            agents: table_map(self.agents@, agent_key(), agent_val()),
            inventories: table_map(self.inventories@, inv_key(), inv_val()),
        }
    }
}

impl CoordinatorInventoryStore {
    /// One row per node id in each table.
    /// Ids are unique, and every stored inventory lists its classes in
    /// ascending order, each once.
    pub closed spec fn wf(&self) -> bool {
        &&& keys_unique(self.agents@, agent_key())
        &&& keys_unique(self.inventories@, inv_key())
        &&& forall|i: int| 0 <= i < self.inventories@.len() ==> classes_canonical(#[trigger] self.inventories@[i])
    }

    /// An empty store.
    pub fn new() -> (s: Self)
        ensures
            s.wf(),
            s@.agents == Map::<Seq<char>, RegistryView>::empty(),
            s@.inventories == Map::<Seq<char>, InventoryView>::empty(),
    {
        let s = CoordinatorInventoryStore { agents: Vec::new(), inventories: Vec::new() };
        assert(s@.agents =~= Map::<Seq<char>, RegistryView>::empty());
        assert(s@.inventories =~= Map::<Seq<char>, InventoryView>::empty());
        s
    }

    fn find_agent(&self, node_id: &str) -> (r: Option<usize>)
        requires
            self.wf(),
        ensures
            match r {
                Some(i) => i < self.agents@.len() && self@.agents.contains_key(node_id@) && self@.agents[node_id@]
                    == self.agents@[i as int]@,
                None => !self@.agents.contains_key(node_id@),
            },
    {
        let mut i: usize = 0;
        while i < self.agents.len()
            invariant
                keys_unique(self.agents@, agent_key()),
                i <= self.agents@.len(),
                forall|k: int| 0 <= k < i ==> agent_key()(#[trigger] self.agents@[k]) != node_id@,
            decreases self.agents@.len() - i,
        {
            if str_eq(self.agents[i].node_id.as_str(), node_id) {
                proof {
                    lemma_table_at(self.agents@, agent_key(), agent_val(), i as int);
                }
                return Some(i);
            }
            i = i + 1;
        }
        proof {
            lemma_table_absent(self.agents@, agent_key(), agent_val(), node_id@);
        }
        None
    }

    fn find_inventory(&self, node_id: &str) -> (r: Option<usize>)
        requires
            self.wf(),
        ensures
            match r {
                Some(i) => i < self.inventories@.len() && self@.inventories.contains_key(node_id@)
                    && self@.inventories[node_id@] == self.inventories@[i as int]@
                    && self.inventories@[i as int].node_id@ == node_id@,
                None => !self@.inventories.contains_key(node_id@),
            },
    {
        let mut i: usize = 0;
        while i < self.inventories.len()
            invariant
                keys_unique(self.inventories@, inv_key()),
                i <= self.inventories@.len(),
                forall|k: int| 0 <= k < i ==> inv_key()(#[trigger] self.inventories@[k]) != node_id@,
            decreases self.inventories@.len() - i,
        {
            if str_eq(self.inventories[i].node_id.as_str(), node_id) {
                proof {
                    lemma_table_at(self.inventories@, inv_key(), inv_val(), i as int);
                }
                return Some(i);
            }
            i = i + 1;
        }
        proof {
            lemma_table_absent(self.inventories@, inv_key(), inv_val(), node_id@);
        }
        None
    }

    fn device_exists(&self, device_id: &str) -> (r: bool)
        requires
            self.wf(),
        ensures
            r == device_taken(self@, device_id@),
    {
        let mut i: usize = 0;
        while i < self.agents.len()
            invariant
                keys_unique(self.agents@, agent_key()),
                i <= self.agents@.len(),
                forall|k: int| 0 <= k < i ==> (#[trigger] self.agents@[k]).device_id@ != device_id@,
            decreases self.agents@.len() - i,
        {
            if str_eq(self.agents[i].device_id.as_str(), device_id) {
                proof {
                    lemma_table_at(self.agents@, agent_key(), agent_val(), i as int);
                    assert(self@.agents.contains_key(self.agents@[i as int].node_id@));
                }
                return true;
            }
            i = i + 1;
        }
        proof {
            assert forall|k: Seq<char>| #[trigger] self@.agents.contains_key(k) implies self@.agents[k].device_id
                != device_id@ by {
                let j = lemma_table_index(self.agents@, agent_key(), agent_val(), k);
            }
        }
        false
    }

    fn key_exists(&self, key: &Vec<u8>) -> (r: bool)
        requires
            self.wf(),
        ensures
            r == key_taken(self@, key@),
    {
        let mut i: usize = 0;
        while i < self.agents.len()
            invariant
                keys_unique(self.agents@, agent_key()),
                i <= self.agents@.len(),
                forall|k: int| 0 <= k < i ==> (#[trigger] self.agents@[k]).verifying_key@ != key@,
            decreases self.agents@.len() - i,
        {
            if same_bytes(&self.agents[i].verifying_key, key) {
                proof {
                    lemma_table_at(self.agents@, agent_key(), agent_val(), i as int);
                    assert(self@.agents.contains_key(self.agents@[i as int].node_id@));
                }
                return true;
            }
            i = i + 1;
        }
        proof {
            assert forall|k: Seq<char>| #[trigger] self@.agents.contains_key(k) implies self@.agents[k].verifying_key
                != key@ by {
                let j = lemma_table_index(self.agents@, agent_key(), agent_val(), k);
            }
        }
        false
    }

    /// The registry of `node_id`, if registered. Reading never fails.
    pub fn get_agent(&self, node_id: &str) -> (r: Result<Option<AgentRegistry>, InventoryStoreError>)
        requires
            self.wf(),
        ensures
            match r {
                Ok(Some(a)) => self@.agents.contains_key(node_id@) && a@ == self@.agents[node_id@],
                Ok(None) => !self@.agents.contains_key(node_id@),
                Err(_) => false,
            },
    {
        match self.find_agent(node_id) {
            Some(i) => Ok(Some(self.agents[i].copied())),
            None => Ok(None),
        }
    }

    /// The latest inventory of `node_id`, if any. Reading never fails.
    pub fn get_inventory(&self, node_id: &str) -> (r: Result<Option<AgentInventory>, InventoryStoreError>)
        requires
            self.wf(),
        ensures
            match r {
                Ok(Some(a)) => self@.inventories.contains_key(node_id@) && a@ == self@.inventories[node_id@]
                    && classes_canonical(a),
                Ok(None) => !self@.inventories.contains_key(node_id@),
                Err(_) => false,
            },
    {
        match self.find_inventory(node_id) {
            Some(i) => Ok(Some(self.inventories[i].copied())),
            None => Ok(None),
        }
    }

    /// Registers an already validated registry (see `register_step`).
    fn register_validated(&mut self, registry: &AgentRegistry) -> (r: Result<RegisterAgentResult, InventoryStoreError>)
        requires
            old(self).wf(),
            registry_error(registry@) is None,
        ensures
            final(self).wf(),
            (final(self)@, register_outcome(r)) == register_step(old(self)@, registry@),
    {
        match self.find_agent(registry.node_id.as_str()) {
            Some(i) => {
                let stored = &self.agents[i];
                if same_bytes(&encode_registry(stored), &encode_registry(registry)) {
                    return Ok(RegisterAgentResult { registry: stored.copied(), created: false });
                }
                return Err(InventoryStoreError::RegistryConflict { field: "node_id" });
            },
            None => {},
        }
        if self.device_exists(registry.device_id.as_str()) {
            return Err(InventoryStoreError::RegistryConflict { field: "device_id" });
        }
        if self.key_exists(&registry.verifying_key) {
            return Err(InventoryStoreError::RegistryConflict { field: "verifying_key" });
        }
        let row = registry.copied();
        proof {
            lemma_table_push(self.agents@, agent_key(), agent_val(), row);
        }
        self.agents.push(row);
        Ok(RegisterAgentResult { registry: registry.copied(), created: true })
    }

    /// Registers an Agent's immutable identity and scheduler facts (see
    /// `register_step`); the input is validated before any stored row is
    /// read.
    pub fn register_agent(&mut self, registry: &AgentRegistry) -> (r: Result<RegisterAgentResult, InventoryStoreError>)
        requires
            old(self).wf(),
        ensures
            final(self).wf(),
            (final(self)@, register_outcome(r)) == register_step(old(self)@, registry@),
    {
        match validate_registry(registry) {
            Err(f) => Err(InventoryStoreError::InvalidInput(f)),
            Ok(()) => self.register_validated(registry),
        }
    }

    /// Replaces an inventory already normalized and validated (see
    /// `update_step`).
    fn update_normalized(&mut self, n: AgentInventory) -> (r: Result<UpdateInventoryResult, InventoryStoreError>)
        requires
            old(self).wf(),
            classes_canonical(n),
            inventory_error(n@) is None,
            normalized(n@) == n@,
        ensures
            final(self).wf(),
            (final(self)@, update_outcome(r)) == update_step(old(self)@, n@),
    {
        if self.find_agent(n.node_id.as_str()).is_none() {
            return Err(InventoryStoreError::AgentNotFound { node_id: copy_string(&n.node_id) });
        }
        match self.find_inventory(n.node_id.as_str()) {
            Some(i) => {
                let stored_revision = self.inventories[i].inventory_revision;
                if n.inventory_revision < stored_revision {
                    return Err(
                        InventoryStoreError::LowerRevision {
                            stored: stored_revision,
                            requested: n.inventory_revision,
                        },
                    );
                }
                if n.inventory_revision == stored_revision {
                    if same_bytes(&encode_inventory_payload(&n), &encode_inventory_payload(&self.inventories[i])) {
                        return Ok(UpdateInventoryResult { inventory: self.inventories[i].copied(), updated: false });
                    }
                    return Err(InventoryStoreError::RevisionConflict { revision: n.inventory_revision });
                }
                let result = n.copied();
                proof {
                    lemma_table_update(self.inventories@, inv_key(), inv_val(), i as int, n);
                }
                self.inventories.set(i, n);
                Ok(UpdateInventoryResult { inventory: result, updated: true })
            },
            None => {
                let result = n.copied();
                proof {
                    lemma_table_push(self.inventories@, inv_key(), inv_val(), n);
                }
                self.inventories.push(n);
                Ok(UpdateInventoryResult { inventory: result, updated: true })
            },
        }
    }

    /// Replaces an Agent's latest inventory (see `update_step`); the input
    /// is normalized and validated before any stored row is read.
    pub fn update_inventory(&mut self, inventory: &AgentInventory) -> (r: Result<UpdateInventoryResult, InventoryStoreError>)
        requires
            old(self).wf(),
        ensures
            final(self).wf(),
            (final(self)@, update_outcome(r)) == update_step(old(self)@, inventory@),
    {
        let n = match normalized_and_validated(inventory) {
            Err(e) => return Err(e),
            Ok(n) => n,
        };
        proof {
            lemma_normalized_idempotent(inventory@);
        }
        self.update_normalized(n)
    }
    /// Registers one entry and replaces its inventory (see `entry_step`).
    fn apply_entry(&mut self, registry: &AgentRegistry, n: AgentInventory) -> (r: Result<(bool, bool), InventoryStoreError>)
        requires
            old(self).wf(),
            classes_canonical(n),
            registry_error(registry@) is None,
            inventory_error(n@) is None,
            normalized(n@) == n@,
        ensures
            final(self).wf(),
            match r {
                Ok((c, u)) => entry_step(old(self)@, registry@, n@) == Ok::<
                    (InventoryStoreView, bool, bool),
                    StoreFailure,
                >((final(self)@, c, u)),
                Err(e) => entry_step(old(self)@, registry@, n@) == Err::<(InventoryStoreView, bool, bool), StoreFailure>(
                    failure_of(e),
                ),
            },
    {
        let created = match self.register_validated(registry) {
            Err(e) => {
                return Err(e);
            },
            Ok(x) => x.created,
        };
        match self.update_normalized(n) {
            Err(e) => Err(e),
            Ok(x) => Ok((created, x.updated)),
        }
    }

    /// The candidate pool at `evaluated_at_unix_ms` (see `is_pool_of`). The
    /// time is only copied into the pool; no stored time is touched.
    pub fn pool_snapshot(&self, evaluated_at_unix_ms: u64) -> (r: Result<PoolSnapshot, InventoryStoreError>)
        requires
            self.wf(),
        ensures
            match r {
                Ok(p) => p.evaluated_at_unix_ms == evaluated_at_unix_ms && is_pool_of(candidate_views(p.candidates@), self@)
                    && forall|i: int| 0 <= i < p.candidates@.len() ==> candidate_classes_canonical(#[trigger] p.candidates@[i]),
                Err(_) => false,
            },
    {
        let mut c: Vec<CandidateSnapshot> = Vec::new();
        let mut i: usize = 0;
        proof {
            lemma_pool_empty(self@, self.agents@);
        }
        while i < self.agents.len()
            invariant
                self.wf(),
                i <= self.agents@.len(),
                pool_prefix(c@, self@, self.agents@, i as int),
                forall|k: int| 0 <= k < c@.len() ==> candidate_classes_canonical(#[trigger] c@[k]),
            decreases self.agents@.len() - i,
        {
            let reg = self.agents[i].copied();
            proof {
                lemma_table_at(self.agents@, agent_key(), agent_val(), i as int);
                lemma_pool_fresh(c@, self@, self.agents@, i as int);
            }
            let inv = match self.find_inventory(reg.node_id.as_str()) {
                Some(j) => Some(self.inventories[j].copied()),
                None => None,
            };
            let x = project_candidate(reg, inv);
            proof {
                lemma_pool_sorted(c@, self@, self.agents@, i as int);
            }
            let p = candidate_position(&c, x.node_id.as_str());
            let ghost before = c@;
            c.insert(p, x);
            proof {
                lemma_pool_insert(before, self@, self.agents@, i as int, p as int, x);
                assert forall|k: int| 0 <= k < c@.len() implies candidate_classes_canonical(#[trigger] c@[k]) by {
                    if k < p {
                        assert(c@[k] == before[k]);
                    } else if k > p {
                        assert(c@[k] == before[k - 1]);
                    }
                }
            }
            i = i + 1;
        }
        proof {
            lemma_pool_done(c@, self@, self.agents@);
        }
        Ok(PoolSnapshot { evaluated_at_unix_ms, candidates: c })
    }

    /// A copy of the store.
    fn copy(&self) -> (r: Self)
        requires
            self.wf(),
        ensures
            r.wf(),
            r@ == self@,
    {
        let mut agents: Vec<AgentRegistry> = Vec::new();
        let mut i: usize = 0;
        while i < self.agents.len()
            invariant
                i <= self.agents@.len(),
                agents@.len() == i,
                forall|j: int| 0 <= j < i ==> (#[trigger] agents@[j])@ == self.agents@[j]@,
            decreases self.agents@.len() - i,
        {
            agents.push(self.agents[i].copied());
            i = i + 1;
        }
        let mut inventories: Vec<AgentInventory> = Vec::new();
        let mut i: usize = 0;
        while i < self.inventories.len()
            invariant
                i <= self.inventories@.len(),
                inventories@.len() == i,
                forall|j: int| 0 <= j < i ==> (#[trigger] inventories@[j])@ == self.inventories@[j]@,
                forall|j: int| 0 <= j < i ==> class_seq(#[trigger] inventories@[j]) == class_seq(self.inventories@[j]),
                forall|j: int| 0 <= j < self.inventories@.len() ==> classes_canonical(#[trigger] self.inventories@[j]),
            decreases self.inventories@.len() - i,
        {
            inventories.push(self.inventories[i].copied());
            i = i + 1;
        }
        proof {
            lemma_table_same(self.agents@, agents@, agent_key(), agent_val());
            lemma_table_same(self.inventories@, inventories@, inv_key(), inv_val());
            assert forall|j: int| 0 <= j < inventories@.len() implies classes_canonical(#[trigger] inventories@[j]) by {
                assert(class_seq(inventories@[j]) == class_seq(self.inventories@[j]));
                assert(classes_canonical(self.inventories@[j]));
            }
        }
        CoordinatorInventoryStore { agents, inventories }
    }

    /// Imports several Agents' registration and inventory as one change (see
    /// `import_step`). A refused entry is reported with its index and node
    /// id, and nothing is written.
    #[verifier::rlimit(40)]
    pub fn import_bootstrap(&mut self, entries: &[AgentBootstrap]) -> (r: Result<ImportBootstrapResult, InventoryStoreError>)
        requires
            old(self).wf(),
        ensures
            final(self).wf(),
            (final(self)@, import_outcome(r)) == import_step(old(self)@, entries_view(entries@)),
            r matches Err(InventoryStoreError::BootstrapEntry { index, node_id, source }) ==> index
                < entries@.len() && node_id@ == entries@[index as int].registry.node_id@,
    {
        let ghost es = entries_view(entries@);
        let ghost n = entries@.len() as int;
        let mut prepared: Vec<AgentInventory> = Vec::new();
        let mut i: usize = 0;
        while i < entries.len()
            invariant
                self.wf(),
                *self == *old(self),
                es == entries_view(entries@),
                n == entries@.len(),
                i <= n,
                prepared@.len() == i,
                first_input_error(es, i as int) is None,
                forall|j: int| 0 <= j < i ==> (#[trigger] prepared@[j])@ == normalized(es[j].1) && inventory_error(
                    prepared@[j]@,
                ) is None,
                forall|j: int| 0 <= j < i ==> classes_canonical(#[trigger] prepared@[j]),
                forall|j: int| 0 <= j < i ==> entry_input_error(#[trigger] es[j].0, es[j].1) is None,
            decreases n - i,
        {
            let entry = &entries[i];
            assert(es[i as int] == (entry.registry@, entry.inventory@));
            if !str_eq(entry.registry.node_id.as_str(), entry.inventory.node_id.as_str()) {
                proof {
                    lemma_first_input_error_sticks(es, i as int, n);
                }
                return Err(
                    InventoryStoreError::BootstrapEntry {
                        index: i,
                        node_id: copy_string(&entry.registry.node_id),
                        source: Box::new(InventoryStoreError::InvalidInput("registry/inventory node_id mismatch")),
                    },
                );
            }
            match validate_registry(&entry.registry) {
                Err(f) => {
                    proof {
                        lemma_first_input_error_sticks(es, i as int, n);
                    }
                    return Err(
                        InventoryStoreError::BootstrapEntry {
                            index: i,
                            node_id: copy_string(&entry.registry.node_id),
                            source: Box::new(InventoryStoreError::InvalidInput(f)),
                        },
                    );
                },
                Ok(()) => {},
            }
            match normalized_and_validated(&entry.inventory) {
                Err(e) => {
                    proof {
                        lemma_first_input_error_sticks(es, i as int, n);
                    }
                    return Err(
                        InventoryStoreError::BootstrapEntry {
                            index: i,
                            node_id: copy_string(&entry.registry.node_id),
                            source: Box::new(e),
                        },
                    );
                },
                Ok(p) => {
                    prepared.push(p);
                },
            }
            i = i + 1;
        }
        let mut work = self.copy();
        let mut registered: usize = 0;
        let mut updated: usize = 0;
        let mut i: usize = 0;
        while i < entries.len()
            invariant
                self.wf(),
                *self == *old(self),
                es == entries_view(entries@),
                n == entries@.len(),
                i <= n,
                prepared@.len() == n,
                forall|j: int| 0 <= j < n ==> (#[trigger] prepared@[j])@ == normalized(es[j].1) && inventory_error(
                    prepared@[j]@,
                ) is None,
                forall|j: int| 0 <= j < n ==> classes_canonical(#[trigger] prepared@[j]),
                forall|j: int| 0 <= j < n ==> entry_input_error(#[trigger] es[j].0, es[j].1) is None,
                work.wf(),
                first_input_error(es, n) is None,
                registered <= i,
                updated <= i,
                apply_entries(self@, es, i as int) == Ok::<(InventoryStoreView, nat, nat), (int, StoreFailure)>(
                    (work@, registered as nat, updated as nat),
                ),
            decreases n - i,
        {
            let entry = &entries[i];
            assert(es[i as int] == (entry.registry@, entry.inventory@));
            assert(entry_input_error(es[i as int].0, es[i as int].1) is None);
            let p = prepared[i].copied();
            assert(classes_canonical(prepared@[i as int]));
            let ghost before = work@;
            proof {
                lemma_normalized_idempotent(es[i as int].1);
                assert(entry_step(before, es[i as int].0, p@) == entry_step(before, es[i as int].0, es[i as int].1));
            }
            match work.apply_entry(&entry.registry, p) {
                Err(e) => {
                    proof {
                        lemma_apply_sticks(self@, es, i as int, n);
                    }
                    return Err(
                        InventoryStoreError::BootstrapEntry {
                            index: i,
                            node_id: copy_string(&entry.registry.node_id),
                            source: Box::new(e),
                        },
                    );
                },
                Ok((c, u)) => {
                    if c {
                        registered = registered + 1;
                    }
                    if u {
                        updated = updated + 1;
                    }
                },
            }
            i = i + 1;
        }
        *self = work;
        Ok(ImportBootstrapResult { registered, inventories_updated: updated, entries: entries.len() })
    }
}

/// Registering the same registry again after it was accepted changes nothing
/// and returns the stored row, not a new one.
pub proof fn law_register_retry_is_idempotent(s: InventoryStoreView, r: RegistryView)
    requires
        register_step(s, r).1 is Ok,
    ensures
        ({
            let s1 = register_step(s, r).0;
            register_step(s1, r) == (s1, Ok::<(RegistryView, bool), InventoryStoreError>((s1.agents[r.node_id], false)))
        }),
{
}

/// Sending the same inventory again after it was accepted changes nothing and
/// returns the stored inventory.
pub proof fn law_update_retry_is_idempotent(s: InventoryStoreView, inv: InventoryView)
    requires
        update_step(s, inv).1 is Ok,
    ensures
        ({
            let s1 = update_step(s, inv).0;
            let n = normalized(inv);
            update_step(s1, inv) == (s1, Ok::<(InventoryView, bool), StoreFailure>((s1.inventories[n.node_id], false)))
        }),
{
}

/// A refused registration, inventory update or import leaves the store as it
/// was.
pub proof fn law_refusals_change_nothing(
    s: InventoryStoreView,
    r: RegistryView,
    inv: InventoryView,
    es: Seq<(RegistryView, InventoryView)>,
)
    ensures
        register_step(s, r).1 is Err ==> register_step(s, r).0 == s,
        update_step(s, inv).1 is Err ==> update_step(s, inv).0 == s,
        import_step(s, es).1 is Err ==> import_step(s, es).0 == s,
{
}

/// An inventory never replaces one with a higher revision.
pub proof fn law_revisions_never_go_back(s: InventoryStoreView, inv: InventoryView)
    requires
        s.inventories.contains_key(inv.node_id),
        inv.inventory_revision < s.inventories[inv.node_id].inventory_revision,
    ensures
        update_step(s, inv).0 == s,
        update_step(s, inv).1 is Err,
{
}

/// Registering and updating never remove a registered Agent or a stored
/// inventory.
proof fn lemma_entry_step_grows(s: InventoryStoreView, reg: RegistryView, inv: InventoryView)
    requires
        entry_step(s, reg, inv) is Ok,
    ensures
        ({
            let s3 = entry_state(s, reg, inv);
            &&& forall|k: Seq<char>| s.agents.contains_key(k) ==> #[trigger] s3.agents.contains_key(k)
            &&& forall|k: Seq<char>| s.inventories.contains_key(k) ==> #[trigger] s3.inventories.contains_key(k)
            &&& s3.agents.contains_key(reg.node_id)
            &&& s3.inventories.contains_key(normalized(inv).node_id)
        }),
{
}

proof fn lemma_apply_lands(s: InventoryStoreView, es: Seq<(RegistryView, InventoryView)>, n: int)
    requires
        0 <= n <= es.len(),
        apply_entries(s, es, n) is Ok,
    ensures
        forall|j: int| 0 <= j < n ==> (#[trigger] applied_state(s, es, n).agents).contains_key(es[j].0.node_id),
        forall|j: int| 0 <= j < n ==> (#[trigger] applied_state(s, es, n).inventories).contains_key(es[j].1.node_id),
    decreases n,
{
    if n > 0 {
        lemma_apply_lands(s, es, n - 1);
        let s1 = applied_state(s, es, n - 1);
        lemma_entry_step_grows(s1, es[n - 1].0, es[n - 1].1);
    }
}

/// An import that succeeds registers every entry's Agent and stores an
/// inventory for each.
pub proof fn law_import_lands_every_entry(s: InventoryStoreView, es: Seq<(RegistryView, InventoryView)>)
    requires
        import_step(s, es).1 is Ok,
    ensures
        forall|j: int| 0 <= j < es.len() ==> (#[trigger] import_step(s, es).0.agents).contains_key(es[j].0.node_id),
        forall|j: int| 0 <= j < es.len() ==> (#[trigger] import_step(s, es).0.inventories).contains_key(es[j].1.node_id),
{
    lemma_apply_lands(s, es, es.len() as int);
}

/// Normalizing twice is normalizing once.
pub proof fn lemma_normalized_idempotent(inv: InventoryView)
    ensures
        normalized(normalized(inv)) == normalized(inv),
{
    match inv.gpus {
        Some(g) => crate::gpu_order::law_gpu_order_is_idempotent(g),
        None => {},
    }
}

} // verus!
