//! Reading registry and inventory rows back from the durable store: every
//! column must decode, the facts must still be valid, and the normalized
//! payload stored beside them must match; anything else is corruption and
//! fails closed, never defaulted.
use vstd::prelude::*;

use crate::inventory::{
    canonical_classes, class_list, encode_inventory_payload, encode_registry, inventory_error, inventory_payload,
    lemma_class_list_set, parsed_isolation_class, parsed_key_protection, parsed_node_state, parsed_risk_state,
    parsed_security_tier, parsed_workload_class, registry_error, registry_payload, validate_inventory,
    validate_registry, AgentInventory, AgentRegistry, GpuInventory, GpuView, InventoryStoreError, InventoryView,
    IsolationClass, KeyProtection, NodeState, RegistryView, RiskState, SecurityTier, WorkloadClass, gpu_views,
};
use crate::job_store::{be_bytes, be_value, decode_u64, encode_u64, lemma_be_round_trip, lemma_pow256_8, same_bytes};
use crate::inventory::{
    isolation_class_name, key_protection_name, law_isolation_class_names_round_trip,
    law_key_protection_names_round_trip, law_node_state_names_round_trip, law_risk_state_names_round_trip,
    law_security_tier_names_round_trip, law_workload_class_names_round_trip, lemma_class_list_distinct,
    node_state_name, opt_text, risk_state_name, security_tier_name, workload_class_name,
};
use crate::text::push_str;

verus! {

/// A stored boolean: `0` or `1`; anything else is corruption.
pub open spec fn flag_of(v: i64) -> Option<bool> {
    if v == 0 {
        Some(false)
    } else if v == 1 {
        Some(true)
    } else {
        None
    }
}

/// The stored form of a boolean.
pub fn bool_to_i64(value: bool) -> (r: i64)
    ensures
        flag_of(r) == Some(value),
{
    if value {
        1
    } else {
        0
    }
}

/// Reads a stored boolean.
pub fn parse_bool(value: i64, field: &str) -> (r: Result<bool, InventoryStoreError>)
    ensures
        match flag_of(value) {
            Some(b) => r == Ok::<bool, InventoryStoreError>(b),
            None => r matches Err(InventoryStoreError::CorruptData(_)),
        },
{
    if value == 0 {
        Ok(false)
    } else if value == 1 {
        Ok(true)
    } else {
        let mut e = String::from_str(field);
        push_str(&mut e, " is outside the boolean enum range");
        Err(InventoryStoreError::CorruptData(e))
    }
}

/// Eight big-endian bytes.
pub open spec fn u64_of(b: Seq<u8>) -> Option<u64> {
    if b.len() == 8 {
        Some(be_value(b) as u64)
    } else {
        None
    }
}

/// An optional stored number: absent stays absent, present must decode.
pub open spec fn opt_u64_of(o: Option<Vec<u8>>) -> Option<Option<u64>> {
    match o {
        None => Some(None),
        Some(b) => match u64_of(b@) {
            Some(v) => Some(Some(v)),
            None => None,
        },
    }
}

pub open spec fn opt_flag_of(o: Option<i64>) -> Option<Option<bool>> {
    match o {
        None => Some(None),
        Some(v) => match flag_of(v) {
            Some(b) => Some(Some(b)),
            None => None,
        },
    }
}

/// An optional stored name: absent stays absent, present must name a value.
pub open spec fn opt_name_of<T>(o: Option<String>, parse: spec_fn(Seq<char>) -> Option<T>) -> Option<Option<T>> {
    match o {
        None => Some(None),
        Some(s) => match parse(s@) {
            Some(v) => Some(Some(v)),
            None => None,
        },
    }
}

fn decode_field(bytes: &[u8], field: &str) -> (r: Result<u64, InventoryStoreError>)
    ensures
        match u64_of(bytes@) {
            Some(v) => r == Ok::<u64, InventoryStoreError>(v),
            None => r matches Err(InventoryStoreError::CorruptData(_)),
        },
{
    match decode_u64(bytes, field) {
        Ok(v) => Ok(v),
        Err(_) => {
            let mut e = String::from_str(field);
            push_str(&mut e, " must contain exactly 8 bytes");
            Err(InventoryStoreError::CorruptData(e))
        },
    }
}

fn decode_opt_field(o: &Option<Vec<u8>>, field: &str) -> (r: Result<Option<u64>, InventoryStoreError>)
    ensures
        match opt_u64_of(*o) {
            Some(v) => r == Ok::<Option<u64>, InventoryStoreError>(v),
            None => r matches Err(InventoryStoreError::CorruptData(_)),
        },
{
    match o {
        None => Ok(None),
        Some(b) => {
            let v = decode_field(b.as_slice(), field)?;
            Ok(Some(v))
        },
    }
}

/// One stored registry row.
#[derive(Debug, Clone, PartialEq, Eq)]
pub struct RawRegistry {
    pub node_id: String,
    pub device_id: String,
    pub owner_member_id: String,
    pub verifying_key: Vec<u8>,
    pub node_state: Option<String>,
    pub risk_state: Option<String>,
    pub security_tier: Option<String>,
    pub isolation_class: Option<String>,
    pub key_protection: Option<String>,
    pub payload: Vec<u8>,
}

/// What a registry row reads as: every scheduler fact names a value, the
/// registry is valid, and its normalized payload is the stored one.
pub open spec fn registry_of_row(raw: RawRegistry) -> Option<RegistryView> {
    let ns = opt_name_of(raw.node_state, |s: Seq<char>| parsed_node_state(s));
    let rs = opt_name_of(raw.risk_state, |s: Seq<char>| parsed_risk_state(s));
    let st = opt_name_of(raw.security_tier, |s: Seq<char>| parsed_security_tier(s));
    let ic = opt_name_of(raw.isolation_class, |s: Seq<char>| parsed_isolation_class(s));
    let kp = opt_name_of(raw.key_protection, |s: Seq<char>| parsed_key_protection(s));
    if ns is None || rs is None || st is None || ic is None || kp is None {
        None
    } else {
        let r = RegistryView {
            node_id: raw.node_id@,
            device_id: raw.device_id@,
            owner_member_id: raw.owner_member_id@,
            verifying_key: raw.verifying_key@,
            node_state: ns->0,
            risk_state: rs->0,
            security_tier: st->0,
            isolation_class: ic->0,
            key_protection: kp->0,
        };
        if registry_error(r) is Some || registry_payload(r) != raw.payload@ {
            None
        } else {
            Some(r)
        }
    }
}

impl RawRegistry {
    /// Reads the row as a registry (see `registry_of_row`); anything else is
    /// corruption.
    pub fn into_registry(self) -> (r: Result<AgentRegistry, InventoryStoreError>)
        ensures
            match registry_of_row(self) {
                Some(v) => r matches Ok(x) && x@ == v,
                None => r matches Err(InventoryStoreError::CorruptData(_)),
            },
    {
        let node_state = match &self.node_state {
            None => None,
            Some(s) => Some(NodeState::parse(s.as_str())?),
        };
        let risk_state = match &self.risk_state {
            None => None,
            Some(s) => Some(RiskState::parse(s.as_str())?),
        };
        let security_tier = match &self.security_tier {
            None => None,
            Some(s) => Some(SecurityTier::parse(s.as_str())?),
        };
        let isolation_class = match &self.isolation_class {
            None => None,
            Some(s) => Some(IsolationClass::parse(s.as_str())?),
        };
        let key_protection = match &self.key_protection {
            None => None,
            Some(s) => Some(KeyProtection::parse(s.as_str())?),
        };
        let payload = self.payload;
        let registry = AgentRegistry {
            node_id: self.node_id,
            device_id: self.device_id,
            owner_member_id: self.owner_member_id,
            verifying_key: self.verifying_key,
            node_state,
            risk_state,
            security_tier,
            isolation_class,
            key_protection,
        };
        match validate_registry(&registry) {
            Err(field) => {
                let mut e = String::from_str("registry has invalid ");
                push_str(&mut e, field);
                return Err(InventoryStoreError::CorruptData(e));
            },
            Ok(()) => {},
        }
        if !same_bytes(&encode_registry(&registry), &payload) {
            return Err(
                InventoryStoreError::CorruptData(
                    String::from_str("registry normalized payload does not match its columns"),
                ),
            );
        }
        Ok(registry)
    }
}

/// One stored GPU child row.
#[derive(Debug, Clone, PartialEq, Eq)]
pub struct RawGpuRow {
    pub gpu_id: String,
    pub model: Option<String>,
    pub healthy: Option<i64>,
    pub available_vram_bytes: Option<Vec<u8>>,
}

pub open spec fn gpu_of(row: RawGpuRow) -> Option<GpuView> {
    let h = opt_flag_of(row.healthy);
    let v = opt_u64_of(row.available_vram_bytes);
    if h is None || v is None {
        None
    } else {
        Some(
            GpuView {
                gpu_id: row.gpu_id@,
                model: crate::inventory::opt_text(row.model),
                healthy: h->0,
                available_vram_bytes: v->0,
            },
        )
    }
}

/// The GPU rows read in order; `None` when one does not decode.
pub open spec fn gpus_of(rows: Seq<RawGpuRow>) -> Option<Seq<GpuView>>
    decreases rows.len(),
{
    if rows.len() == 0 {
        Some(Seq::empty())
    } else {
        match gpus_of(rows.drop_last()) {
            None => None,
            Some(g) => match gpu_of(rows.last()) {
                None => None,
                Some(x) => Some(g.push(x)),
            },
        }
    }
}

/// The workload child rows read in order; `None` when one names no class or
/// names one twice.
pub open spec fn classes_of(ws: Seq<String>) -> Option<Seq<WorkloadClass>>
    decreases ws.len(),
{
    if ws.len() == 0 {
        Some(Seq::empty())
    } else {
        match classes_of(ws.drop_last()) {
            None => None,
            Some(c) => match parsed_workload_class(ws.last()@) {
                None => None,
                Some(x) => if c.contains(x) {
                    None
                } else {
                    Some(c.push(x))
                },
            },
        }
    }
}

/// One stored inventory parent row.
#[derive(Debug, Clone, PartialEq, Eq)]
pub struct RawInventory {
    pub node_id: String,
    pub inventory_revision: Vec<u8>,
    pub observed_at_unix_ms: Vec<u8>,
    pub gpus_observed: i64,
    pub available_cpu_cores: Option<Vec<u8>>,
    pub available_ram_bytes: Option<Vec<u8>>,
    pub available_workspace_bytes: Option<Vec<u8>>,
    pub workload_classes_observed: i64,
    pub third_party_workloads_opt_in: Option<i64>,
    pub payload: Vec<u8>,
}

/// A child list under its "observed" marker: observed keeps the list, not
/// observed needs no children (`Some(None)`); children under "not observed"
/// are corruption.
pub open spec fn observed_list<T>(observed: bool, list: Seq<T>) -> Option<Option<Seq<T>>> {
    if observed {
        Some(Some(list))
    } else if list.len() == 0 {
        Some(None)
    } else {
        None
    }
}

/// What a parent row with its child rows decodes to, before the inventory
/// is checked: every column decodes, the CPU count fits the scheduler's
/// `u32`, and no child list hides under a "not observed" marker.
pub open spec fn decoded_inventory(raw: RawInventory, rows: Seq<RawGpuRow>, ws: Seq<String>) -> Option<InventoryView> {
    let gpus = gpus_of(rows);
    let classes = classes_of(ws);
    let go = flag_of(raw.gpus_observed);
    let wo = flag_of(raw.workload_classes_observed);
    let cpu = opt_u64_of(raw.available_cpu_cores);
    let rev = u64_of(raw.inventory_revision@);
    let obs = u64_of(raw.observed_at_unix_ms@);
    let ram = opt_u64_of(raw.available_ram_bytes);
    let ws_bytes = opt_u64_of(raw.available_workspace_bytes);
    let opt_in = opt_flag_of(raw.third_party_workloads_opt_in);
    if gpus is None || classes is None || go is None || wo is None || cpu is None || rev is None || obs is None
        || ram is None || ws_bytes is None || opt_in is None {
        None
    } else if observed_list(go->0, gpus->0) is None || observed_list(wo->0, classes->0) is None {
        None
    } else if cpu->0 matches Some(c) && c > u32::MAX {
        None
    } else {
        Some(
            InventoryView {
                node_id: raw.node_id@,
                inventory_revision: rev->0,
                observed_at_unix_ms: obs->0,
                gpus: observed_list(go->0, gpus->0)->0,
                available_cpu_cores: match cpu->0 {
                    Some(c) => Some(c as u32),
                    None => None,
                },
                available_ram_bytes: ram->0,
                available_workspace_bytes: ws_bytes->0,
                allowed_workload_classes: match observed_list(wo->0, classes->0)->0 {
                    Some(c) => Some(c.to_set()),
                    None => None,
                },
                third_party_workloads_opt_in: opt_in->0,
            },
        )
    }
}

/// What a parent row with its child rows reads as: it decodes (see
/// `decoded_inventory`), the inventory is valid, and its normalized payload
/// is the stored one.
pub open spec fn inventory_of_rows(raw: RawInventory, rows: Seq<RawGpuRow>, ws: Seq<String>) -> Option<InventoryView> {
    match decoded_inventory(raw, rows, ws) {
        None => None,
        Some(inv) => if inventory_error(inv) is Some || inventory_payload(inv) != raw.payload@ {
            None
        } else {
            Some(inv)
        },
    }
}

fn read_gpus(rows: &Vec<RawGpuRow>) -> (r: Result<Vec<GpuInventory>, InventoryStoreError>)
    ensures
        match gpus_of(rows@) {
            Some(g) => r matches Ok(x) && gpu_views(x@) == g,
            None => r matches Err(InventoryStoreError::CorruptData(_)),
        },
{
    let mut out: Vec<GpuInventory> = Vec::new();
    let mut i: usize = 0;
    while i < rows.len()
        invariant
            i <= rows@.len(),
            gpus_of(rows@.take(i as int)) == Some(gpu_views(out@)),
        decreases rows@.len() - i,
    {
        let row = &rows[i];
        proof {
            assert(rows@.take(i + 1).drop_last() =~= rows@.take(i as int));
            assert(rows@.take(i + 1).last() == rows@[i as int]);
        }
        let healthy = match row.healthy {
            None => None,
            Some(v) => match parse_bool(v, "GPU healthy") {
                Ok(b) => Some(b),
                Err(e) => {
                    proof {
                        lemma_gpus_of_fails(rows@, i as int);
                    }
                    return Err(e);
                },
            },
        };
        let vram = match decode_opt_field(&row.available_vram_bytes, "GPU available_vram_bytes") {
            Ok(v) => v,
            Err(e) => {
                proof {
                    lemma_gpus_of_fails(rows@, i as int);
                }
                return Err(e);
            },
        };
        let g = GpuInventory {
            gpu_id: crate::text::copy_string(&row.gpu_id),
            model: match &row.model {
                Some(m) => Some(crate::text::copy_string(m)),
                None => None,
            },
            healthy,
            available_vram_bytes: vram,
        };
        let ghost before = out@;
        out.push(g);
        proof {
            assert(gpu_views(out@) =~= gpu_views(before).push(g@));
        }
        i = i + 1;
    }
    proof {
        assert(rows@.take(rows@.len() as int) =~= rows@);
    }
    Ok(out)
}

/// A row that does not decode makes the whole list fail, wherever it is.
proof fn lemma_gpus_of_fails(rows: Seq<RawGpuRow>, i: int)
    requires
        0 <= i < rows.len(),
        gpu_of(rows[i]) is None,
    ensures
        gpus_of(rows) is None,
    decreases rows.len(),
{
    if i < rows.len() - 1 {
        assert(rows.drop_last()[i] == rows[i]);
        lemma_gpus_of_fails(rows.drop_last(), i);
    }
}

/// A name that does not parse, or a class named twice, makes the whole list
/// fail, wherever it is.
proof fn lemma_classes_of_fails(ws: Seq<String>, i: int)
    requires
        0 <= i < ws.len(),
        classes_of(ws.take(i + 1)) is None,
    ensures
        classes_of(ws) is None,
    decreases ws.len(),
{
    if i < ws.len() - 1 {
        assert(ws.drop_last().take(i + 1) =~= ws.take(i + 1));
        lemma_classes_of_fails(ws.drop_last(), i);
    } else {
        assert(ws.take(i + 1) =~= ws);
    }
}

fn has_class(c: &Vec<WorkloadClass>, x: WorkloadClass) -> (r: bool)
    ensures
        r == c@.contains(x),
{
    let mut i: usize = 0;
    while i < c.len()
        invariant
            i <= c@.len(),
            forall|k: int| 0 <= k < i ==> c@[k] != x,
        decreases c@.len() - i,
    {
        if c[i] == x {
            return true;
        }
        i = i + 1;
    }
    false
}

fn read_classes(ws: &Vec<String>) -> (r: Result<Vec<WorkloadClass>, InventoryStoreError>)
    ensures
        match classes_of(ws@) {
            Some(c) => r matches Ok(x) && x@ == c,
            None => r matches Err(InventoryStoreError::CorruptData(_)),
        },
{
    let mut out: Vec<WorkloadClass> = Vec::new();
    let mut i: usize = 0;
    while i < ws.len()
        invariant
            i <= ws@.len(),
            classes_of(ws@.take(i as int)) == Some(out@),
        decreases ws@.len() - i,
    {
        proof {
            assert(ws@.take(i + 1).drop_last() =~= ws@.take(i as int));
            assert(ws@.take(i + 1).last() == ws@[i as int]);
        }
        let x = match WorkloadClass::parse(ws[i].as_str()) {
            Ok(x) => x,
            Err(e) => {
                proof {
                    lemma_classes_of_fails(ws@, i as int);
                }
                return Err(e);
            },
        };
        if has_class(&out, x) {
            proof {
                lemma_classes_of_fails(ws@, i as int);
            }
            return Err(InventoryStoreError::CorruptData(String::from_str("duplicate workload class child row")));
        }
        out.push(x);
        i = i + 1;
    }
    proof {
        assert(ws@.take(ws@.len() as int) =~= ws@);
    }
    Ok(out)
}

/// Reads an inventory back from its parent row and its child rows (see
/// `inventory_of_rows`); anything else is corruption. The allowed classes
/// come back in ascending order, each once.
pub fn decode_inventory(raw: &RawInventory, gpu_rows: &Vec<RawGpuRow>, workload_rows: &Vec<String>) -> (r: Result<
    AgentInventory,
    InventoryStoreError,
>)
    ensures
        match inventory_of_rows(*raw, gpu_rows@, workload_rows@) {
            Some(v) => r matches Ok(x) && x@ == v,
            None => r matches Err(InventoryStoreError::CorruptData(_)),
        },
{
    let all_gpus = read_gpus(gpu_rows)?;
    let gpus_observed = parse_bool(raw.gpus_observed, "gpus_observed")?;
    let gpus = if gpus_observed {
        Some(all_gpus)
    } else if all_gpus.len() == 0 {
        None
    } else {
        return Err(
            InventoryStoreError::CorruptData(String::from_str("GPU child rows exist while gpus_observed is false")),
        );
    };
    let all_classes = read_classes(workload_rows)?;
    let classes_observed = parse_bool(raw.workload_classes_observed, "workload_classes_observed")?;
    let classes = if classes_observed {
        proof {
            lemma_class_list_set(all_classes@.to_set());
        }
        Some(canonical_classes(&all_classes))
    } else if all_classes.len() == 0 {
        None
    } else {
        return Err(
            InventoryStoreError::CorruptData(
                String::from_str("workload child rows exist while workload_classes_observed is false"),
            ),
        );
    };
    let cpu = decode_opt_field(&raw.available_cpu_cores, "available_cpu_cores")?;
    let cpu32 = match cpu {
        None => None,
        Some(c) => {
            if c > 0xffff_ffffu64 {
                return Err(
                    InventoryStoreError::CorruptData(
                        String::from_str("available_cpu_cores exceeds the scheduler u32 range"),
                    ),
                );
            }
            Some(c as u32)
        },
    };
    let revision = decode_field(raw.inventory_revision.as_slice(), "inventory_revision")?;
    let observed = decode_field(raw.observed_at_unix_ms.as_slice(), "observed_at_unix_ms")?;
    let ram = decode_opt_field(&raw.available_ram_bytes, "available_ram_bytes")?;
    let workspace = decode_opt_field(&raw.available_workspace_bytes, "available_workspace_bytes")?;
    let opt_in = match raw.third_party_workloads_opt_in {
        None => None,
        Some(v) => Some(parse_bool(v, "third_party_workloads_opt_in")?),
    };
    let inventory = AgentInventory {
        node_id: crate::text::copy_string(&raw.node_id),
        inventory_revision: revision,
        observed_at_unix_ms: observed,
        gpus,
        available_cpu_cores: cpu32,
        available_ram_bytes: ram,
        available_workspace_bytes: workspace,
        allowed_workload_classes: classes,
        third_party_workloads_opt_in: opt_in,
    };
    assert(decoded_inventory(*raw, gpu_rows@, workload_rows@) == Some(inventory@));
    match validate_inventory(&inventory) {
        Err(field) => {
            let mut e = String::from_str("inventory has invalid ");
            push_str(&mut e, field);
            return Err(InventoryStoreError::CorruptData(e));
        },
        Ok(()) => {},
    }
    if !same_bytes(&encode_inventory_payload(&inventory), &raw.payload) {
        return Err(
            InventoryStoreError::CorruptData(
                String::from_str("inventory normalized payload does not match parent/child rows"),
            ),
        );
    }
    Ok(inventory)
}

/// The stored name of an optional fact.
pub open spec fn opt_name<T>(o: Option<T>, name: spec_fn(T) -> Seq<char>) -> Option<Seq<char>> {
    match o {
        None => None,
        Some(v) => Some(name(v)),
    }
}

/// `raw` is the row a registry is written as.
pub open spec fn is_registry_row(raw: RawRegistry, r: RegistryView) -> bool {
    &&& raw.node_id@ == r.node_id
    &&& raw.device_id@ == r.device_id
    &&& raw.owner_member_id@ == r.owner_member_id
    &&& raw.verifying_key@ == r.verifying_key
    &&& opt_text(raw.node_state) == opt_name(r.node_state, |v: NodeState| node_state_name(v))
    &&& opt_text(raw.risk_state) == opt_name(r.risk_state, |v: RiskState| risk_state_name(v))
    &&& opt_text(raw.security_tier) == opt_name(r.security_tier, |v: SecurityTier| security_tier_name(v))
    &&& opt_text(raw.isolation_class) == opt_name(r.isolation_class, |v: IsolationClass| isolation_class_name(v))
    &&& opt_text(raw.key_protection) == opt_name(r.key_protection, |v: KeyProtection| key_protection_name(v))
    &&& raw.payload@ == registry_payload(r)
}

fn name_column(o: Option<&'static str>) -> (r: Option<String>)
    ensures
        opt_text(r) == match o {
            Some(s) => Some(s@),
            None => None,
        },
{
    match o {
        Some(s) => Some(String::from_str(s)),
        None => None,
    }
}

/// The row a registry is written as.
pub fn registry_row(r: &AgentRegistry) -> (raw: RawRegistry)
    ensures
        is_registry_row(raw, r@),
{
    RawRegistry {
        node_id: crate::text::copy_string(&r.node_id),
        device_id: crate::text::copy_string(&r.device_id),
        owner_member_id: crate::text::copy_string(&r.owner_member_id),
        verifying_key: crate::job_store::copy_bytes(&r.verifying_key),
        node_state: name_column(match r.node_state { Some(v) => Some(v.code()), None => None }),
        risk_state: name_column(match r.risk_state { Some(v) => Some(v.code()), None => None }),
        security_tier: name_column(match r.security_tier { Some(v) => Some(v.code()), None => None }),
        isolation_class: name_column(match r.isolation_class { Some(v) => Some(v.code()), None => None }),
        key_protection: name_column(match r.key_protection { Some(v) => Some(v.code()), None => None }),
        payload: encode_registry(r),
    }
}

/// A valid registry reads back from the row it is written as.
pub proof fn law_registry_row_round_trip(r: RegistryView, raw: RawRegistry)
    requires
        registry_error(r) is None,
        is_registry_row(raw, r),
    ensures
        registry_of_row(raw) == Some(r),
{
    if let Some(v) = r.node_state {
        law_node_state_names_round_trip(v);
    }
    if let Some(v) = r.risk_state {
        law_risk_state_names_round_trip(v);
    }
    if let Some(v) = r.security_tier {
        law_security_tier_names_round_trip(v);
    }
    if let Some(v) = r.isolation_class {
        law_isolation_class_names_round_trip(v);
    }
    if let Some(v) = r.key_protection {
        law_key_protection_names_round_trip(v);
    }
}

pub open spec fn opt_flag_col(o: Option<bool>) -> Option<i64> {
    match o {
        None => None,
        Some(b) => Some(if b { 1i64 } else { 0i64 }),
    }
}

/// A stored optional number is absent exactly when the fact is, and holds
/// its eight big-endian bytes otherwise.
pub open spec fn is_u64_col(col: Option<Vec<u8>>, v: Option<u64>) -> bool {
    match (col, v) {
        (None, None) => true,
        (Some(b), Some(x)) => b@ == be_bytes(x as nat, 8),
        _ => false,
    }
}

pub open spec fn is_gpu_row(row: RawGpuRow, g: GpuView) -> bool {
    &&& row.gpu_id@ == g.gpu_id
    &&& opt_text(row.model) == g.model
    &&& row.healthy == opt_flag_col(g.healthy)
    &&& is_u64_col(row.available_vram_bytes, g.available_vram_bytes)
}

/// `raw`, `rows` and `ws` are the parent row and child rows an inventory is
/// written as; the allowed classes are written in ascending order.
pub open spec fn is_inventory_rows(raw: RawInventory, rows: Seq<RawGpuRow>, ws: Seq<String>, inv: InventoryView) -> bool {
    let gs = match inv.gpus {
        Some(g) => g,
        None => Seq::empty(),
    };
    let cs = match inv.allowed_workload_classes {
        Some(c) => class_list(c),
        None => Seq::empty(),
    };
    &&& raw.node_id@ == inv.node_id
    &&& raw.inventory_revision@ == be_bytes(inv.inventory_revision as nat, 8)
    &&& raw.observed_at_unix_ms@ == be_bytes(inv.observed_at_unix_ms as nat, 8)
    &&& raw.gpus_observed == if inv.gpus is Some { 1i64 } else { 0i64 }
    &&& is_u64_col(raw.available_cpu_cores, match inv.available_cpu_cores {
        Some(c) => Some(c as u64),
        None => None,
    })
    &&& is_u64_col(raw.available_ram_bytes, inv.available_ram_bytes)
    &&& is_u64_col(raw.available_workspace_bytes, inv.available_workspace_bytes)
    &&& raw.workload_classes_observed == if inv.allowed_workload_classes is Some { 1i64 } else { 0i64 }
    &&& raw.third_party_workloads_opt_in == opt_flag_col(inv.third_party_workloads_opt_in)
    &&& raw.payload@ == inventory_payload(inv)
    &&& rows.len() == gs.len()
    &&& forall|i: int| 0 <= i < rows.len() ==> is_gpu_row(#[trigger] rows[i], gs[i])
    &&& ws.len() == cs.len()
    &&& forall|i: int| 0 <= i < ws.len() ==> (#[trigger] ws[i])@ == workload_class_name(cs[i])
}

fn u64_col(v: Option<u64>) -> (r: Option<Vec<u8>>)
    ensures
        is_u64_col(r, v),
{
    match v {
        None => None,
        Some(x) => Some(encode_u64(x)),
    }
}

fn flag_col(v: Option<bool>) -> (r: Option<i64>)
    ensures
        r == opt_flag_col(v),
{
    match v {
        None => None,
        Some(b) => Some(if b { 1i64 } else { 0i64 }),
    }
}

/// The parent row and child rows an inventory is written as (see
/// `is_inventory_rows`).
pub fn inventory_rows(inv: &AgentInventory) -> (r: (RawInventory, Vec<RawGpuRow>, Vec<String>))
    ensures
        is_inventory_rows(r.0, r.1@, r.2@, inv@),
{
    let mut rows: Vec<RawGpuRow> = Vec::new();
    match &inv.gpus {
        None => {},
        Some(gs) => {
            let mut i: usize = 0;
            while i < gs.len()
                invariant
                    i <= gs@.len(),
                    rows@.len() == i,
                    forall|k: int| 0 <= k < i ==> is_gpu_row(#[trigger] rows@[k], gs@[k]@),
                decreases gs@.len() - i,
            {
                let g = &gs[i];
                rows.push(
                    RawGpuRow {
                        gpu_id: crate::text::copy_string(&g.gpu_id),
                        model: match &g.model {
                            Some(m) => Some(crate::text::copy_string(m)),
                            None => None,
                        },
                        healthy: flag_col(g.healthy),
                        available_vram_bytes: u64_col(g.available_vram_bytes),
                    },
                );
                i = i + 1;
            }
        },
    }
    let mut ws: Vec<String> = Vec::new();
    match &inv.allowed_workload_classes {
        None => {},
        Some(w) => {
            let cs = canonical_classes(w);
            let mut i: usize = 0;
            while i < cs.len()
                invariant
                    i <= cs@.len(),
                    ws@.len() == i,
                    forall|k: int| 0 <= k < i ==> (#[trigger] ws@[k])@ == workload_class_name(cs@[k]),
                decreases cs@.len() - i,
            {
                ws.push(String::from_str(cs[i].code()));
                i = i + 1;
            }
        },
    }
    let raw = RawInventory {
        node_id: crate::text::copy_string(&inv.node_id),
        inventory_revision: encode_u64(inv.inventory_revision),
        observed_at_unix_ms: encode_u64(inv.observed_at_unix_ms),
        gpus_observed: if inv.gpus.is_some() { 1 } else { 0 },
        available_cpu_cores: u64_col(match inv.available_cpu_cores { Some(c) => Some(c as u64), None => None }),
        available_ram_bytes: u64_col(inv.available_ram_bytes),
        available_workspace_bytes: u64_col(inv.available_workspace_bytes),
        workload_classes_observed: if inv.allowed_workload_classes.is_some() { 1 } else { 0 },
        third_party_workloads_opt_in: flag_col(inv.third_party_workloads_opt_in),
        payload: encode_inventory_payload(inv),
    };
    (raw, rows, ws)
}

proof fn lemma_u64_round_trip(v: u64)
    ensures
        u64_of(be_bytes(v as nat, 8)) == Some(v),
{
    lemma_pow256_8();
    lemma_be_round_trip(v as nat, 8);
}

proof fn lemma_u64_col_round_trip(col: Option<Vec<u8>>, v: Option<u64>)
    requires
        is_u64_col(col, v),
    ensures
        opt_u64_of(col) == Some(v),
{
    if let Some(x) = v {
        lemma_u64_round_trip(x);
    }
}

proof fn lemma_gpus_round_trip(rows: Seq<RawGpuRow>, gs: Seq<GpuView>)
    requires
        rows.len() == gs.len(),
        forall|i: int| 0 <= i < rows.len() ==> is_gpu_row(#[trigger] rows[i], gs[i]),
    ensures
        gpus_of(rows) == Some(gs),
    decreases rows.len(),
{
    if rows.len() > 0 {
        let n = rows.len() - 1;
        assert forall|i: int| 0 <= i < rows.drop_last().len() implies is_gpu_row(#[trigger] rows.drop_last()[i], gs.drop_last()[i]) by {
            assert(rows.drop_last()[i] == rows[i]);
        }
        lemma_gpus_round_trip(rows.drop_last(), gs.drop_last());
        assert(is_gpu_row(rows[n], gs[n]));
        lemma_u64_col_round_trip(rows[n].available_vram_bytes, gs[n].available_vram_bytes);
        assert(gs.drop_last().push(gs.last()) =~= gs);
    }
}

proof fn lemma_classes_round_trip(ws: Seq<String>, cs: Seq<WorkloadClass>)
    requires
        cs.no_duplicates(),
        ws.len() == cs.len(),
        forall|i: int| 0 <= i < ws.len() ==> (#[trigger] ws[i])@ == workload_class_name(cs[i]),
    ensures
        classes_of(ws) == Some(cs),
    decreases ws.len(),
{
    if ws.len() > 0 {
        let n = ws.len() - 1;
        assert forall|i: int| 0 <= i < ws.drop_last().len() implies (#[trigger] ws.drop_last()[i])@ == workload_class_name(
            cs.drop_last()[i],
        ) by {
            assert(ws.drop_last()[i] == ws[i]);
        }
        lemma_classes_round_trip(ws.drop_last(), cs.drop_last());
        law_workload_class_names_round_trip(cs[n]);
        assert(ws[n]@ == workload_class_name(cs[n]));
        if cs.drop_last().contains(cs[n]) {
            let k = choose|k: int| 0 <= k < cs.drop_last().len() && cs.drop_last()[k] == cs[n];
            assert(cs[k] == cs[n]);
        }
        assert(cs.drop_last().push(cs.last()) =~= cs);
    }
}

/// A valid inventory reads back from the rows it is written as: what a read
/// gives back is what was written.
pub proof fn law_inventory_rows_round_trip(raw: RawInventory, rows: Seq<RawGpuRow>, ws: Seq<String>, inv: InventoryView)
    requires
        inventory_error(inv) is None,
        is_inventory_rows(raw, rows, ws, inv),
    ensures
        inventory_of_rows(raw, rows, ws) == Some(inv),
{
    lemma_u64_round_trip(inv.inventory_revision);
    lemma_u64_round_trip(inv.observed_at_unix_ms);
    lemma_u64_col_round_trip(raw.available_cpu_cores, match inv.available_cpu_cores {
        Some(c) => Some(c as u64),
        None => None,
    });
    lemma_u64_col_round_trip(raw.available_ram_bytes, inv.available_ram_bytes);
    lemma_u64_col_round_trip(raw.available_workspace_bytes, inv.available_workspace_bytes);
    let gs = match inv.gpus {
        Some(g) => g,
        None => Seq::empty(),
    };
    lemma_gpus_round_trip(rows, gs);
    match inv.allowed_workload_classes {
        Some(c) => {
            lemma_class_list_distinct(c);
            lemma_classes_round_trip(ws, class_list(c));
            lemma_class_list_set(c);
        },
        None => {
            lemma_classes_round_trip(ws, Seq::empty());
        },
    }
    let d = decoded_inventory(raw, rows, ws);
    assert(d == Some(inv));
}

} // verus!
