use coordinator::gpu_attestation::{
    check_hello_observation_shape, declared_as_uuid, match_declaration, observation_time_usable,
    AgentSessionHello, NodeGpuObservation, ObservationRules, ObservedGpu,
};
use coordinator::inventory::GpuInventory;

const MODEL: &str = "NVIDIA GeForce RTX 4070 SUPER";
const TOTAL: u64 = 12_878_610_432;
const OLD: &str = "GPU-0a1b2c3d-0000-4000-8000-00000000000a";
const NEW: &str = "GPU-0a1b2c3d-0000-4000-8000-00000000000b";

// Protocol values handed to the checks by the caller.
const MODE_MULTI_AGENT_GRANT: i32 = 3;
const MODE_RENEW: i32 = 2;
const GPU_OBSERVATION_MAX_GPUS: usize = 64;
const GPU_OBSERVATION_MAX_AGE_MS: u64 = 300_000;

fn rules() -> ObservationRules {
    ObservationRules {
        min_schema_version: 2,
        work_mode: MODE_MULTI_AGENT_GRANT,
        max_gpus: GPU_OBSERVATION_MAX_GPUS,
        max_age_ms: GPU_OBSERVATION_MAX_AGE_MS,
    }
}

fn declared(id: &str, model: Option<&str>, vram: Option<u64>) -> GpuInventory {
    GpuInventory {
        gpu_id: id.into(),
        model: model.map(Into::into),
        healthy: Some(true),
        available_vram_bytes: vram,
    }
}

fn observed(uuid: &str, model: &str, total: u64) -> ObservedGpu {
    ObservedGpu {
        uuid: uuid.into(),
        model: model.into(),
        total_vram_bytes: total,
    }
}

fn hello(schema: u32, mode: i32, gpus: Vec<ObservedGpu>) -> AgentSessionHello {
    AgentSessionHello {
        schema_version: schema,
        mode,
        node_id: String::new(),
        session_id: String::new(),
        connection_attempt: 0,
        issued_at_unix_ms: 1_000_000,
        gpu_observation: Some(NodeGpuObservation {
            observed_at_unix_ms: 999_000,
            gpus,
        }),
    }
}

#[test]
fn install_style_declaration_matches_by_model_and_vram() {
    let d = [declared("node-a-gpu-0", Some(MODEL), Some(12_282 * 1_048_576))];
    let o = [observed("GPU-1", MODEL, TOTAL)];
    assert_eq!(match_declaration(&d, &o), Ok(()));
}

#[test]
fn missing_gpu_model_mismatch_and_too_much_vram_do_not_match() {
    let o = [observed("GPU-1", MODEL, TOTAL)];
    let two = [
        declared("n-gpu-0", Some(MODEL), None),
        declared("n-gpu-1", Some(MODEL), None),
    ];
    assert!(match_declaration(&two, &o).is_err());
    assert!(match_declaration(&[declared("n-gpu-0", Some("RTX 3060"), None)], &o).is_err());
    assert!(match_declaration(&[declared("n-gpu-0", Some(MODEL), Some(TOTAL + 1))], &o).is_err());
}

#[test]
fn a_uuid_declaration_binds_only_to_that_gpu() {
    let o = [observed(OLD, MODEL, TOTAL), observed(NEW, MODEL, TOTAL)];
    assert_eq!(match_declaration(&[declared(NEW, Some(MODEL), None)], &o), Ok(()));
    let o2 = [observed(OLD, MODEL, TOTAL), observed(NEW, "RTX 3060", TOTAL)];
    assert!(match_declaration(&[declared(NEW, Some(MODEL), None)], &o2).is_err());
}

#[test]
fn a_uuid_declared_gpu_that_disappeared_is_not_replaced_by_a_look_alike() {
    let d = [declared(OLD, Some(MODEL), Some(TOTAL))];
    assert!(match_declaration(&d, &[observed(NEW, MODEL, TOTAL)]).is_err());
    assert_eq!(match_declaration(&d, &[observed(OLD, MODEL, TOTAL)]), Ok(()));
}

#[test]
fn a_numbered_declaration_that_starts_with_gpu_is_not_a_uuid() {
    let d = [declared("GPU-gpu-0", Some(MODEL), Some(TOTAL))];
    assert_eq!(match_declaration(&d, &[observed(NEW, MODEL, TOTAL)]), Ok(()));
    assert!(declared_as_uuid(OLD));
    assert!(declared_as_uuid("MIG-0a1b2c3d-0000-4000-8000-00000000000a"));
    for not_uuid in [
        "GPU-gpu-0",
        "GPU-",
        "node-gpu-0",
        "GPU-0a1b2c3d-0000-4000-8000-00000000000",
        "MIG-GPU-x/1/0",
    ] {
        assert!(!declared_as_uuid(not_uuid), "{not_uuid}");
    }
}

#[test]
fn matching_is_not_greedy() {
    let d = [
        declared("n-gpu-0", Some(MODEL), None),
        declared("n-gpu-1", Some(MODEL), Some(TOTAL)),
    ];
    let o = [
        observed("GPU-1", MODEL, TOTAL),
        observed("GPU-2", MODEL, 8_000_000_000),
    ];
    assert_eq!(match_declaration(&d, &o), Ok(()));
}

#[test]
fn extra_observed_gpus_are_allowed() {
    let o = [observed("GPU-1", MODEL, TOTAL), observed("GPU-2", MODEL, TOTAL)];
    assert_eq!(match_declaration(&[declared("n-gpu-0", Some(MODEL), None)], &o), Ok(()));
}

#[test]
fn shape_rules() {
    let one = || vec![observed("GPU-1", MODEL, TOTAL)];
    assert_eq!(
        check_hello_observation_shape(&hello(2, MODE_MULTI_AGENT_GRANT, one()), rules()),
        Ok(())
    );
    assert!(check_hello_observation_shape(&hello(1, MODE_MULTI_AGENT_GRANT, one()), rules()).is_err());
    assert!(check_hello_observation_shape(&hello(2, MODE_RENEW, one()), rules()).is_err());
    assert!(check_hello_observation_shape(&hello(2, MODE_MULTI_AGENT_GRANT, vec![]), rules()).is_err());
    assert!(check_hello_observation_shape(
        &hello(2, MODE_MULTI_AGENT_GRANT, vec![observed("GPU-1", "", TOTAL)]),
        rules()
    )
    .is_err());
    assert!(check_hello_observation_shape(
        &hello(2, MODE_MULTI_AGENT_GRANT, vec![observed("GPU-1", MODEL, 0)]),
        rules()
    )
    .is_err());
    assert!(check_hello_observation_shape(
        &hello(
            2,
            MODE_MULTI_AGENT_GRANT,
            vec![observed("GPU-2", MODEL, TOTAL), observed("GPU-1", MODEL, TOTAL)]
        ),
        rules()
    )
    .is_err());
    assert!(check_hello_observation_shape(
        &hello(
            2,
            MODE_MULTI_AGENT_GRANT,
            vec![observed("GPU-1", MODEL, TOTAL), observed("GPU-1", MODEL, TOTAL)]
        ),
        rules()
    )
    .is_err());
    let too_many = (0..=GPU_OBSERVATION_MAX_GPUS)
        .map(|i| observed(&format!("GPU-{i:03}"), MODEL, TOTAL))
        .collect();
    assert!(check_hello_observation_shape(&hello(2, MODE_MULTI_AGENT_GRANT, too_many), rules()).is_err());
    let mut bare = hello(1, MODE_MULTI_AGENT_GRANT, vec![]);
    bare.gpu_observation = None;
    assert_eq!(check_hello_observation_shape(&bare, rules()), Ok(()));
}

#[test]
fn shape_refusals_carry_the_hello_prefix() {
    let e = check_hello_observation_shape(&hello(2, MODE_MULTI_AGENT_GRANT, vec![]), rules()).unwrap_err();
    assert!(e.starts_with("HELLO_REJECTED:"), "{e}");
}

#[test]
fn time_rules() {
    let h = hello(2, MODE_MULTI_AGENT_GRANT, vec![observed("GPU-1", MODEL, TOTAL)]);
    let at = |t: u64| NodeGpuObservation {
        observed_at_unix_ms: t,
        gpus: vec![],
    };
    assert_eq!(observation_time_usable(&h, &at(1_000_000), GPU_OBSERVATION_MAX_AGE_MS), Ok(()));
    assert_eq!(
        observation_time_usable(&h, &at(1_000_000 - GPU_OBSERVATION_MAX_AGE_MS), GPU_OBSERVATION_MAX_AGE_MS),
        Ok(())
    );
    assert!(observation_time_usable(&h, &at(1_000_001), GPU_OBSERVATION_MAX_AGE_MS).is_err());
    assert!(observation_time_usable(
        &h,
        &at(1_000_000 - GPU_OBSERVATION_MAX_AGE_MS - 1),
        GPU_OBSERVATION_MAX_AGE_MS
    )
    .is_err());
}
