use coordinator::inventory::{
    AgentBootstrap, AgentInventory, AgentRegistry, GpuInventory, InventoryStoreError, IsolationClass,
    KeyProtection, NodeState, RiskState, SecurityTier, WorkloadClass,
};
use coordinator::inventory_rows::{
    bool_to_i64, decode_inventory, inventory_rows, parse_bool, registry_row,
};
use coordinator::inventory_store::{normalized_and_validated, CoordinatorInventoryStore};

fn registry(node: &str, seed: u8) -> AgentRegistry {
    AgentRegistry {
        node_id: node.into(),
        device_id: format!("device-{seed}"),
        owner_member_id: format!("owner-{seed}"),
        verifying_key: vec![seed; 32],
        node_state: Some(NodeState::Online),
        risk_state: Some(RiskState::Normal),
        security_tier: Some(SecurityTier::S2),
        isolation_class: Some(IsolationClass::Contained),
        key_protection: Some(KeyProtection::K1),
    }
}

fn inventory(node: &str, revision: u64, observed: u64, marker: u64) -> AgentInventory {
    AgentInventory {
        node_id: node.into(),
        inventory_revision: revision,
        observed_at_unix_ms: observed,
        gpus: Some(vec![
            GpuInventory {
                gpu_id: format!("gpu-a-{marker}"),
                model: Some(format!("model-a-{marker}")),
                healthy: Some(true),
                available_vram_bytes: Some(marker + 10),
            },
            GpuInventory {
                gpu_id: format!("gpu-z-{marker}"),
                model: Some(format!("model-z-{marker}")),
                healthy: Some(false),
                available_vram_bytes: Some(marker + 20),
            },
        ]),
        available_cpu_cores: Some(marker as u32),
        available_ram_bytes: Some(marker + 30),
        available_workspace_bytes: Some(marker + 40),
        allowed_workload_classes: Some(vec![WorkloadClass::Training, WorkloadClass::Evaluation]),
        third_party_workloads_opt_in: Some(marker % 2 == 0),
    }
}

fn bootstrap(node: &str, seed: u8, revision: u64, marker: u64) -> AgentBootstrap {
    AgentBootstrap {
        registry: registry(node, seed),
        inventory: inventory(node, revision, 1_700_000_000_000, marker),
    }
}

fn prepared_store() -> CoordinatorInventoryStore {
    let mut store = CoordinatorInventoryStore::new();
    store.register_agent(&registry("node-a", 1)).unwrap();
    store
}

#[test]
fn a_failing_entry_rolls_back_every_earlier_entry() {
    let mut store = CoordinatorInventoryStore::new();
    let good = bootstrap("node-a", 1, 1, 100);
    let mut clashing = bootstrap("node-b", 2, 1, 200);
    clashing.registry.device_id = good.registry.device_id.clone();

    let error = store
        .import_bootstrap(&[good.clone(), clashing])
        .expect_err("a device_id conflict was accepted");
    match error {
        InventoryStoreError::BootstrapEntry {
            index,
            ref node_id,
            ref source,
        } => {
            assert_eq!(index, 1);
            assert_eq!(node_id, "node-b");
            assert_eq!(**source, InventoryStoreError::RegistryConflict { field: "device_id" });
        }
        other => panic!("an error that names no entry: {other:?}"),
    }
    assert!(store.get_agent("node-a").unwrap().is_none(), "the earlier registry stayed");
    assert!(store.get_inventory("node-a").unwrap().is_none(), "the earlier inventory stayed");
    assert!(store.get_agent("node-b").unwrap().is_none(), "the failed entry stayed");
    assert_eq!(store.pool_snapshot(1_700_000_001_000).unwrap().candidates.len(), 0);
}

#[test]
fn the_two_halves_of_an_entry_must_name_the_same_node() {
    let mut store = CoordinatorInventoryStore::new();
    let mut entry = bootstrap("node-a", 1, 1, 100);
    entry.inventory.node_id = "node-elsewhere".into();

    let error = store.import_bootstrap(&[entry]).expect_err("accepted halves naming two nodes");
    match error {
        InventoryStoreError::BootstrapEntry { ref source, .. } => assert_eq!(
            **source,
            InventoryStoreError::InvalidInput("registry/inventory node_id mismatch")
        ),
        other => panic!("an error that names no entry: {other:?}"),
    }
    assert!(store.get_agent("node-a").unwrap().is_none());
}

#[test]
fn a_bootstrap_import_produces_schedulable_candidates() {
    let mut store = CoordinatorInventoryStore::new();
    let result = store
        .import_bootstrap(&[bootstrap("node-a", 1, 1, 100), bootstrap("node-b", 2, 1, 200)])
        .expect("a good import");
    assert_eq!((result.registered, result.inventories_updated, result.entries), (2, 2, 2));
    let pool = store.pool_snapshot(1_700_000_001_000).unwrap();
    let ids: Vec<&str> = pool.candidates.iter().map(|c| c.node_id.as_str()).collect();
    assert_eq!(ids, vec!["node-a", "node-b"]);
}

#[test]
fn importing_the_same_bootstrap_twice_creates_nothing_new() {
    let mut store = CoordinatorInventoryStore::new();
    let entries = [bootstrap("node-a", 1, 1, 100)];
    let first = store.import_bootstrap(&entries).unwrap();
    assert_eq!((first.registered, first.inventories_updated), (1, 1));
    let second = store.import_bootstrap(&entries).unwrap();
    assert_eq!((second.registered, second.inventories_updated), (0, 0));
    assert_eq!(second.entries, 1);
}

#[test]
fn an_empty_import_is_no_error_and_no_work() {
    let mut store = CoordinatorInventoryStore::new();
    let result = store.import_bootstrap(&[]).unwrap();
    assert_eq!((result.registered, result.inventories_updated, result.entries), (0, 0, 0));
}

#[test]
fn bad_input_is_rejected_without_waiting_for_the_write_lock() {
    let mut store = CoordinatorInventoryStore::new();
    let mut invalid = registry("node-a", 1);
    invalid.node_id = "   ".into();
    let error = store.register_agent(&invalid).expect_err("a blank id was accepted");
    assert!(matches!(error, InventoryStoreError::InvalidInput(_)), "{error:?}");

    let mut bad_inventory = inventory("node-a", 1, 1_700_000_000_000, 100);
    bad_inventory.node_id = "   ".into();
    let error = store.update_inventory(&bad_inventory).expect_err("a blank id was accepted");
    assert!(matches!(error, InventoryStoreError::InvalidInput(_)), "{error:?}");
}

#[test]
fn a_bad_bootstrap_entry_is_rejected_without_waiting_for_the_write_lock() {
    let mut store = CoordinatorInventoryStore::new();
    let mut bad = bootstrap("node-a", 1, 1, 100);
    bad.registry.device_id = "  ".into();
    bad.inventory.node_id = bad.registry.node_id.clone();
    let error = store.import_bootstrap(&[bad]).expect_err("a blank device_id was accepted");
    match error {
        InventoryStoreError::BootstrapEntry { ref source, .. } => {
            assert_eq!(**source, InventoryStoreError::InvalidInput("device_id"))
        }
        other => panic!("an error that names no entry: {other:?}"),
    }
}

#[test]
fn multiple_agents_reopen_and_project_in_node_order() {
    let mut store = CoordinatorInventoryStore::new();
    let agent_b = registry("node-b", 2);
    let agent_a = registry("node-a", 1);
    store.register_agent(&agent_b).unwrap();
    store.register_agent(&agent_a).unwrap();
    store.update_inventory(&inventory("node-b", 4, 90, 20)).unwrap();
    store.update_inventory(&inventory("node-a", 7, 80, 10)).unwrap();

    assert_eq!(store.get_agent("node-a").unwrap(), Some(agent_a));
    assert_eq!(store.get_inventory("node-b").unwrap(), Some(inventory("node-b", 4, 90, 20)));
    let snapshot = store.pool_snapshot(100).unwrap();
    assert_eq!(snapshot.evaluated_at_unix_ms, 100);
    assert_eq!(
        snapshot
            .candidates
            .iter()
            .map(|candidate| candidate.node_id.as_str())
            .collect::<Vec<_>>(),
        ["node-a", "node-b"]
    );
    assert_eq!(snapshot.candidates[0].inventory_revision, Some(7));
    assert_eq!(snapshot.candidates[1].inventory_revision, Some(4));
    assert_eq!(
        snapshot.candidates[0]
            .gpus
            .as_ref()
            .unwrap()
            .iter()
            .map(|gpu| gpu.gpu_id.as_str())
            .collect::<Vec<_>>(),
        ["gpu-a-10", "gpu-z-10"]
    );
    assert_eq!(snapshot.candidates[0].owner_member_id.as_deref(), Some("owner-1"));

    // reopen: every row written is read back into a new store
    let mut reopened = CoordinatorInventoryStore::new();
    for node in ["node-b", "node-a"] {
        let agent = registry_row(&store.get_agent(node).unwrap().unwrap()).into_registry().unwrap();
        reopened.register_agent(&agent).unwrap();
        let (raw, gpus, classes) = inventory_rows(&store.get_inventory(node).unwrap().unwrap());
        reopened.update_inventory(&decode_inventory(&raw, &gpus, &classes).unwrap()).unwrap();
    }
    assert_eq!(reopened.get_agent("node-a").unwrap(), store.get_agent("node-a").unwrap());
    assert_eq!(reopened.get_inventory("node-b").unwrap(), store.get_inventory("node-b").unwrap());
    assert_eq!(reopened.pool_snapshot(100).unwrap(), snapshot);
}

#[test]
fn registry_retry_is_idempotent_and_every_identity_conflict_preserves_row() {
    let mut store = CoordinatorInventoryStore::new();
    let original = registry("node-a", 1);
    assert!(store.register_agent(&original).unwrap().created);
    for _ in 0..10 {
        assert!(!store.register_agent(&original).unwrap().created);
    }
    for changed in [
        {
            let mut changed = original.clone();
            changed.device_id = "other-device".into();
            changed
        },
        {
            let mut changed = original.clone();
            changed.verifying_key = vec![9; 32];
            changed
        },
        {
            let mut changed = original.clone();
            changed.owner_member_id = "other-owner".into();
            changed
        },
    ] {
        assert!(matches!(
            store.register_agent(&changed),
            Err(InventoryStoreError::RegistryConflict { field: "node_id" })
        ));
    }
    let mut other = registry("node-b", 2);
    other.device_id = original.device_id.clone();
    assert!(matches!(
        store.register_agent(&other),
        Err(InventoryStoreError::RegistryConflict { field: "device_id" })
    ));
    other.device_id = "device-2".into();
    other.verifying_key = original.verifying_key.clone();
    assert!(matches!(
        store.register_agent(&other),
        Err(InventoryStoreError::RegistryConflict { field: "verifying_key" })
    ));
    assert_eq!(store.get_agent("node-a").unwrap(), Some(original));
    assert_eq!(store.get_agent("node-b").unwrap(), None);
}

#[test]
fn same_revision_requires_byte_equivalent_normalized_payload() {
    let mut store = prepared_store();
    let original = inventory("node-a", 8, 100, 10);
    assert!(store.update_inventory(&original).unwrap().updated);
    assert!(!store.update_inventory(&original).unwrap().updated);
    let mut reordered = original.clone();
    reordered.gpus.as_mut().unwrap().reverse();
    assert!(!store.update_inventory(&reordered).unwrap().updated);
    let mut reordered_classes = original.clone();
    reordered_classes.allowed_workload_classes =
        Some(vec![WorkloadClass::Evaluation, WorkloadClass::Training, WorkloadClass::Training]);
    assert!(!store.update_inventory(&reordered_classes).unwrap().updated);

    let mut changed = original.clone();
    changed.available_ram_bytes = Some(999);
    assert_eq!(
        store.update_inventory(&changed),
        Err(InventoryStoreError::RevisionConflict { revision: 8 })
    );
    let mut lower = original.clone();
    lower.inventory_revision = 7;
    assert_eq!(
        store.update_inventory(&lower),
        Err(InventoryStoreError::LowerRevision {
            stored: 8,
            requested: 7
        })
    );
    assert_eq!(store.get_inventory("node-a").unwrap(), Some(original));
}

#[test]
fn every_replacement_fault_rolls_back_parent_and_all_children() {
    // A replacement that is refused leaves the stored inventory whole.
    let mut store = prepared_store();
    let old = inventory("node-a", 1, 100, 10);
    store.update_inventory(&old).unwrap();
    let mut replacement = inventory("node-a", 2, 200, 90);
    replacement.gpus.as_mut().unwrap()[1].gpu_id = "gpu-a-90".into();
    assert!(matches!(
        store.update_inventory(&replacement),
        Err(InventoryStoreError::InvalidInput("duplicate gpu_id"))
    ));
    assert_eq!(store.get_inventory("node-a").unwrap(), Some(old));
}

#[test]
fn invalid_registry_and_inventory_inputs_have_no_side_effects() {
    let mut store = CoordinatorInventoryStore::new();
    for field in ["node", "device", "owner", "key"] {
        let mut invalid = registry("node-a", 1);
        match field {
            "node" => invalid.node_id = " ".into(),
            "device" => invalid.device_id.clear(),
            "owner" => invalid.owner_member_id = "\t".into(),
            "key" => invalid.verifying_key = vec![1; 31],
            _ => unreachable!(),
        }
        assert!(matches!(store.register_agent(&invalid), Err(InventoryStoreError::InvalidInput(_))));
    }
    assert!(store.pool_snapshot(0).unwrap().candidates.is_empty());
    store.register_agent(&registry("node-a", 1)).unwrap();

    let old = inventory("node-a", 1, 100, 10);
    store.update_inventory(&old).unwrap();
    let mut invalids = Vec::new();
    let mut blank = inventory("node-a", 2, 200, 20);
    blank.gpus.as_mut().unwrap()[0].gpu_id.clear();
    invalids.push(blank);
    let mut duplicate = inventory("node-a", 2, 200, 20);
    duplicate.gpus.as_mut().unwrap()[1].gpu_id = duplicate.gpus.as_ref().unwrap()[0].gpu_id.clone();
    invalids.push(duplicate);
    let mut empty_model = inventory("node-a", 2, 200, 20);
    empty_model.gpus.as_mut().unwrap()[0].model = Some(" ".into());
    invalids.push(empty_model);
    for invalid in invalids {
        assert!(matches!(store.update_inventory(&invalid), Err(InventoryStoreError::InvalidInput(_))));
        assert_eq!(store.get_inventory("node-a").unwrap(), Some(old.clone()));
    }
    let absent = inventory("node-missing", 1, 0, 1);
    assert!(matches!(
        store.update_inventory(&absent),
        Err(InventoryStoreError::AgentNotFound { .. })
    ));
}

#[test]
fn registry_errors_name_the_first_bad_field() {
    let mut store = CoordinatorInventoryStore::new();
    let mut invalid = registry("node-a", 1);
    invalid.device_id = " ".into();
    invalid.verifying_key = vec![];
    assert_eq!(store.register_agent(&invalid), Err(InventoryStoreError::InvalidInput("device_id")));
    let mut short_key = registry("node-a", 1);
    short_key.verifying_key = vec![1; 33];
    assert_eq!(
        store.register_agent(&short_key),
        Err(InventoryStoreError::InvalidInput("verifying_key"))
    );
}

#[test]
fn unknown_and_explicit_zero_facts_remain_distinct_in_projection() {
    let mut store = CoordinatorInventoryStore::new();
    let mut unknown = registry("node-a", 1);
    unknown.node_state = None;
    unknown.risk_state = None;
    unknown.security_tier = None;
    unknown.isolation_class = None;
    unknown.key_protection = None;
    store.register_agent(&unknown).unwrap();
    let missing = store.pool_snapshot(50).unwrap().candidates.remove(0);
    assert_eq!(missing.inventory_revision, None);
    assert_eq!(missing.node_state, None);
    assert_eq!(missing.observed_at_unix_ms, None);
    assert_eq!(missing.gpus, None);
    assert_eq!(missing.available_cpu_cores, None);
    assert_eq!(missing.allowed_workload_classes, None);

    let zero = AgentInventory {
        node_id: "node-a".into(),
        inventory_revision: 0,
        observed_at_unix_ms: 0,
        gpus: Some(vec![]),
        available_cpu_cores: Some(0),
        available_ram_bytes: Some(0),
        available_workspace_bytes: Some(0),
        allowed_workload_classes: Some(vec![]),
        third_party_workloads_opt_in: Some(false),
    };
    store.update_inventory(&zero).unwrap();
    let explicit = store.pool_snapshot(50).unwrap().candidates.remove(0);
    assert_eq!(explicit.inventory_revision, Some(0));
    assert_eq!(explicit.observed_at_unix_ms, Some(0));
    assert_eq!(explicit.gpus, Some(vec![]));
    assert_eq!(explicit.available_cpu_cores, Some(0));
    assert_eq!(explicit.available_ram_bytes, Some(0));
    assert_eq!(explicit.allowed_workload_classes, Some(vec![]));
    assert_eq!(explicit.third_party_workloads_opt_in, Some(false));
}

#[test]
fn stale_and_future_observation_times_are_preserved_and_rejected_by_scheduler() {
    let mut store = CoordinatorInventoryStore::new();
    store.register_agent(&registry("node-a", 1)).unwrap();
    store.register_agent(&registry("node-b", 2)).unwrap();
    store.update_inventory(&inventory("node-a", 1, 10, 10)).unwrap();
    store.update_inventory(&inventory("node-b", 1, 110, 20)).unwrap();
    let snapshot = store.pool_snapshot(100).unwrap();
    assert_eq!(snapshot.candidates[0].observed_at_unix_ms, Some(10));
    assert_eq!(snapshot.candidates[1].observed_at_unix_ms, Some(110));
}

#[test]
fn maximum_revision_timestamp_and_resource_values_round_trip() {
    let mut store = prepared_store();
    let maximum = AgentInventory {
        node_id: "node-a".into(),
        inventory_revision: u64::MAX,
        observed_at_unix_ms: u64::MAX,
        gpus: Some(vec![GpuInventory {
            gpu_id: "gpu-max".into(),
            model: None,
            healthy: None,
            available_vram_bytes: Some(u64::MAX),
        }]),
        available_cpu_cores: Some(u32::MAX),
        available_ram_bytes: Some(u64::MAX),
        available_workspace_bytes: Some(u64::MAX),
        allowed_workload_classes: Some(vec![WorkloadClass::Other]),
        third_party_workloads_opt_in: None,
    };
    store.update_inventory(&maximum).unwrap();
    assert!(!store.update_inventory(&maximum).unwrap().updated);
    assert_eq!(store.get_inventory("node-a").unwrap(), Some(maximum.clone()));
    let snapshot = store.pool_snapshot(u64::MAX).unwrap();
    assert_eq!(snapshot.candidates[0].observed_at_unix_ms, Some(u64::MAX));
    assert_eq!(snapshot.candidates[0].available_cpu_cores, Some(u32::MAX));
    assert_eq!(
        snapshot.candidates[0].gpus.as_ref().unwrap()[0].available_vram_bytes,
        Some(u64::MAX)
    );
}

#[test]
fn normalization_sorts_gpus_stably_and_classes_ascending() {
    let mut input = inventory("node-a", 1, 1, 5);
    input.gpus = Some(vec![
        GpuInventory { gpu_id: "b".into(), model: None, healthy: None, available_vram_bytes: Some(1) },
        GpuInventory { gpu_id: "a".into(), model: None, healthy: None, available_vram_bytes: Some(2) },
        GpuInventory { gpu_id: "c".into(), model: None, healthy: None, available_vram_bytes: Some(3) },
    ]);
    input.allowed_workload_classes = Some(vec![
        WorkloadClass::Other,
        WorkloadClass::Inference,
        WorkloadClass::Other,
        WorkloadClass::Training,
    ]);
    let n = normalized_and_validated(&input).unwrap();
    let ids: Vec<&str> = n.gpus.as_ref().unwrap().iter().map(|g| g.gpu_id.as_str()).collect();
    assert_eq!(ids, ["a", "b", "c"]);
    assert_eq!(n.gpus.as_ref().unwrap()[0].available_vram_bytes, Some(2));
    assert_eq!(
        n.allowed_workload_classes,
        Some(vec![WorkloadClass::Training, WorkloadClass::Inference, WorkloadClass::Other])
    );
}

#[test]
fn validation_runs_on_the_sorted_gpus() {
    // Two GPUs share an id; the one with the blank model is reported second,
    // so after the stable sort the duplicate is found first.
    let mut input = inventory("node-a", 1, 1, 5);
    input.gpus = Some(vec![
        GpuInventory { gpu_id: "x".into(), model: Some("m".into()), healthy: None, available_vram_bytes: None },
        GpuInventory { gpu_id: "x".into(), model: Some(" ".into()), healthy: None, available_vram_bytes: None },
    ]);
    assert_eq!(
        normalized_and_validated(&input),
        Err(InventoryStoreError::InvalidInput("duplicate gpu_id"))
    );
    input.gpus = Some(vec![
        GpuInventory { gpu_id: "x".into(), model: Some(" ".into()), healthy: None, available_vram_bytes: None },
        GpuInventory { gpu_id: "x".into(), model: Some("m".into()), healthy: None, available_vram_bytes: None },
    ]);
    assert_eq!(normalized_and_validated(&input), Err(InventoryStoreError::InvalidInput("gpu model")));
}

#[test]
fn written_rows_read_back_unchanged() {
    let r = registry("node-a", 1);
    assert_eq!(registry_row(&r).into_registry(), Ok(r));
    let inv = normalized_and_validated(&inventory("node-a", 1, 100, 10)).unwrap();
    let (raw, gpus, classes) = inventory_rows(&inv);
    assert_eq!(classes, vec!["TRAINING".to_string(), "EVALUATION".to_string()]);
    assert_eq!(decode_inventory(&raw, &gpus, &classes), Ok(inv));
}

#[test]
fn corrupted_enum_key_revision_and_gpu_child_fail_closed_after_reopen() {
    let mut enum_row = registry_row(&registry("node-a", 1));
    enum_row.node_state = Some("UNKNOWN".into());
    assert!(matches!(enum_row.into_registry(), Err(InventoryStoreError::CorruptData(_))), "enum");
    let mut key_row = registry_row(&registry("node-a", 1));
    key_row.verifying_key = vec![1];
    assert!(matches!(key_row.into_registry(), Err(InventoryStoreError::CorruptData(_))), "key");

    let inv = normalized_and_validated(&inventory("node-a", 1, 100, 10)).unwrap();
    let (mut raw, gpus, classes) = inventory_rows(&inv);
    raw.inventory_revision = vec![0, 0, 0, 0, 0, 0, 0, 9];
    assert!(
        matches!(decode_inventory(&raw, &gpus, &classes), Err(InventoryStoreError::CorruptData(_))),
        "revision"
    );
    let (raw, mut gpus, classes) = inventory_rows(&inv);
    gpus[0].healthy = Some(2);
    assert!(
        matches!(decode_inventory(&raw, &gpus, &classes), Err(InventoryStoreError::CorruptData(_))),
        "GPU child"
    );
}

#[test]
fn corrupt_payload_and_observation_markers_fail_closed() {
    let inv = normalized_and_validated(&inventory("node-a", 1, 100, 10)).unwrap();
    let corruptions: Vec<Box<dyn Fn(&mut coordinator::inventory_rows::RawInventory)>> = vec![
        Box::new(|raw| raw.payload = vec![0]),
        Box::new(|raw| raw.gpus_observed = 2),
        Box::new(|raw| raw.workload_classes_observed = 2),
        Box::new(|raw| raw.third_party_workloads_opt_in = Some(2)),
    ];
    for corrupt in corruptions {
        let (mut raw, gpus, classes) = inventory_rows(&inv);
        corrupt(&mut raw);
        assert!(matches!(decode_inventory(&raw, &gpus, &classes), Err(InventoryStoreError::CorruptData(_))));
    }
}

#[test]
fn children_under_a_not_observed_marker_are_corruption() {
    let inv = normalized_and_validated(&inventory("node-a", 1, 100, 10)).unwrap();
    let (mut raw, gpus, classes) = inventory_rows(&inv);
    raw.gpus_observed = 0;
    assert!(matches!(decode_inventory(&raw, &gpus, &classes), Err(InventoryStoreError::CorruptData(_))));
    let (raw, gpus, mut classes) = inventory_rows(&inv);
    classes.push("TRAINING".into());
    assert!(matches!(decode_inventory(&raw, &gpus, &classes), Err(InventoryStoreError::CorruptData(_))));
}

#[test]
fn stored_booleans_are_zero_or_one() {
    assert_eq!(bool_to_i64(true), 1);
    assert_eq!(bool_to_i64(false), 0);
    assert_eq!(parse_bool(1, "x"), Ok(true));
    assert_eq!(parse_bool(0, "x"), Ok(false));
    assert!(matches!(parse_bool(2, "x"), Err(InventoryStoreError::CorruptData(_))));
    assert!(matches!(parse_bool(-1, "x"), Err(InventoryStoreError::CorruptData(_))));
}

#[test]
fn inventory_store_errors_read_as_their_text() {
    assert_eq!(
        InventoryStoreError::LowerRevision { stored: 7, requested: 3 }.message(),
        "inventory revision moved backwards: stored=7, requested=3"
    );
    let nested = InventoryStoreError::BootstrapEntry {
        index: 2,
        node_id: "node-b".into(),
        source: Box::new(InventoryStoreError::RevisionConflict { revision: 10 }),
    };
    assert_eq!(
        nested.message(),
        "bootstrap entry 2 (node-b) rejected, nothing was imported: inventory revision 10 already has a different payload"
    );
}
