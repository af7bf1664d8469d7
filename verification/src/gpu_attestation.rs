//! Checks the GPU observation that a node carries in its session Hello and
//! pairs it with the GPUs declared for that node.
//!
//! The observation is the node's own report; it is only evidence that the
//! declaration is still true and never rewrites the declaration.
use vstd::prelude::*;

use crate::inventory::GpuInventory;
use crate::matching::{assign_all_rows, is_assignment, rectangular};
use crate::text::{lex_lt, push_decimal, push_str, starts_with, str_lt};

verus! {

/// A GPU as the node observed it.
#[derive(Debug, Clone, PartialEq, Eq)]
pub struct ObservedGpu {
    pub uuid: String,
    pub model: String,
    pub total_vram_bytes: u64,
}

/// The node's GPU observation, with the time it was taken.
#[derive(Debug, Clone, PartialEq, Eq)]
pub struct NodeGpuObservation {
    pub observed_at_unix_ms: u64,
    pub gpus: Vec<ObservedGpu>,
}

/// The first frame of a session, as far as the coordinator reads it.
#[derive(Debug, Clone, PartialEq, Eq)]
pub struct AgentSessionHello {
    pub schema_version: u32,
    pub mode: i32,
    pub node_id: String,
    pub session_id: String,
    pub connection_attempt: u32,
    pub issued_at_unix_ms: u64,
    pub gpu_observation: Option<NodeGpuObservation>,
}

/// Protocol limits for a GPU observation carried in a Hello.
#[derive(Debug, Clone, Copy, PartialEq, Eq)]
pub struct ObservationRules {
    /// The first Hello schema version that may carry an observation.
    pub min_schema_version: u32,
    /// The Hello mode of a connection that comes to take work.
    pub work_mode: i32,
    /// Most GPUs an observation may list.
    pub max_gpus: usize,
    /// How much older than its Hello an observation may be.
    pub max_age_ms: u64,
}

/// The structural rules that an observation in a Hello must meet.
pub open spec fn observation_shape_ok(hello: AgentSessionHello, rules: ObservationRules) -> bool {
    match hello.gpu_observation {
        None => true,
        Some(observation) => {
            let gpus = observation.gpus@;
            &&& hello.schema_version >= rules.min_schema_version
            &&& hello.mode == rules.work_mode
            &&& 1 <= gpus.len() <= rules.max_gpus
            &&& forall|i: int|
                0 <= i < gpus.len() ==> (#[trigger] gpus[i]).uuid@.len() > 0 && gpus[i].model@.len()
                    > 0 && gpus[i].total_vram_bytes > 0
            &&& forall|i: int| 0 <= i < gpus.len() - 1 ==> lex_lt(#[trigger] gpus[i].uuid@, gpus[i + 1].uuid@)
        },
    }
}

/// Structural rules for the observation in a Hello; a Hello without one passes.
///
/// The observation must come with a new enough schema, on a work connection,
/// list between one and `max_gpus` GPUs with non-empty fields, in strictly
/// ascending uuid order. A refusal starts with `HELLO_REJECTED:`.
pub fn check_hello_observation_shape(hello: &AgentSessionHello, rules: ObservationRules) -> (r:
    Result<(), String>)
    ensures
        r is Ok <==> observation_shape_ok(*hello, rules),
        r matches Err(e) ==> starts_with(e@, "HELLO_REJECTED:"@),
{
    let observation = match &hello.gpu_observation {
        None => return Ok(()),
        Some(observation) => observation,
    };
    if hello.schema_version < rules.min_schema_version {
        return Err(rejected("a GPU observation needs a newer Hello schema, got v", hello.schema_version as u64));
    }
    if hello.mode != rules.work_mode {
        return Err(rejected_signed("a GPU observation belongs only on a work connection, got mode ", hello.mode));
    }
    let gpus = &observation.gpus;
    if gpus.len() == 0 || gpus.len() > rules.max_gpus {
        return Err(rejected("a GPU observation must list between one and the allowed number of GPUs, got ", gpus.len() as u64));
    }
    let mut i: usize = 0;
    while i < gpus.len()
        invariant
            hello.gpu_observation is Some && hello.gpu_observation->0.gpus@ == gpus@,
            i <= gpus@.len(),
            forall|k: int|
                0 <= k < i ==> (#[trigger] gpus@[k]).uuid@.len() > 0 && gpus@[k].model@.len() > 0
                    && gpus@[k].total_vram_bytes > 0,
        decreases gpus@.len() - i,
    {
        let gpu = &gpus[i];
        if gpu.uuid.as_str().unicode_len() == 0 || gpu.model.as_str().unicode_len() == 0
            || gpu.total_vram_bytes == 0 {
            proof {
                assert(gpus@[i as int] == *gpu);
            }
            return Err(rejected("a GPU observation has an empty value at position ", i as u64));
        }
        i = i + 1;
    }
    let mut i: usize = 1;
    while i < gpus.len()
        invariant
            hello.gpu_observation is Some && hello.gpu_observation->0.gpus@ == gpus@,
            1 <= i,
            i <= gpus@.len() || gpus@.len() == 0,
            forall|k: int| 0 <= k < i - 1 && k < gpus@.len() - 1 ==> lex_lt(#[trigger] gpus@[k].uuid@, gpus@[k + 1].uuid@),
        decreases gpus@.len() - i,
    {
        if !str_lt(gpus[i - 1].uuid.as_str(), gpus[i].uuid.as_str()) {
            proof {
                let k = i - 1;
                assert(!lex_lt(gpus@[k as int].uuid@, gpus@[k + 1].uuid@));
            }
            return Err(rejected("a GPU observation is not in strictly ascending uuid order at position ", i as u64));
        }
        i = i + 1;
    }
    Ok(())
}

fn rejected(reason: &str, value: u64) -> (e: String)
    ensures
        starts_with(e@, "HELLO_REJECTED:"@),
{
    let mut e = String::from_str("HELLO_REJECTED: ");
    proof {
        reveal_strlit("HELLO_REJECTED: ");
        reveal_strlit("HELLO_REJECTED:");
    }
    let ghost head = e@;
    push_str(&mut e, reason);
    push_decimal(&mut e, value);
    proof {
        assert(head.take(15) =~= "HELLO_REJECTED:"@);
        assert(e@.take(15) =~= head.take(15));
    }
    e
}

fn rejected_signed(reason: &str, value: i32) -> (e: String)
    ensures
        starts_with(e@, "HELLO_REJECTED:"@),
{
    let mut e = String::from_str("HELLO_REJECTED: ");
    proof {
        reveal_strlit("HELLO_REJECTED: ");
        reveal_strlit("HELLO_REJECTED:");
    }
    let ghost head = e@;
    push_str(&mut e, reason);
    if value < 0 {
        push_str(&mut e, "-");
        push_decimal(&mut e, (0i64 - value as i64) as u64);
    } else {
        push_decimal(&mut e, value as u64);
    }
    proof {
        assert(head.take(15) =~= "HELLO_REJECTED:"@);
        assert(e@.take(15) =~= head.take(15));
    }
    e
}

/// The observation is not newer than its Hello and at most `max_age_ms` older.
pub open spec fn observation_time_ok(hello: AgentSessionHello, observation: NodeGpuObservation, max_age_ms: u64) -> bool {
    &&& observation.observed_at_unix_ms <= hello.issued_at_unix_ms
    &&& hello.issued_at_unix_ms - observation.observed_at_unix_ms <= max_age_ms
}

/// Time rule: an observation is used for confirmation only when it was taken
/// no later than its Hello and no more than `max_age_ms` before it.
pub fn observation_time_usable(
    hello: &AgentSessionHello,
    observation: &NodeGpuObservation,
    max_age_ms: u64,
) -> (r: Result<(), String>)
    ensures
        r is Ok <==> observation_time_ok(*hello, *observation, max_age_ms),
{
    if observation.observed_at_unix_ms > hello.issued_at_unix_ms {
        let mut e = String::from_str("observation time ");
        push_decimal(&mut e, observation.observed_at_unix_ms);
        push_str(&mut e, " is later than the Hello time ");
        push_decimal(&mut e, hello.issued_at_unix_ms);
        return Err(e);
    }
    let age = hello.issued_at_unix_ms - observation.observed_at_unix_ms;
    if age > max_age_ms {
        let mut e = String::from_str("observation is ");
        push_decimal(&mut e, age);
        push_str(&mut e, "ms older than the Hello, limit ");
        push_decimal(&mut e, max_age_ms);
        return Err(e);
    }
    Ok(())
}

pub open spec fn is_hex_digit(c: char) -> bool {
    let u = c as u32;
    (0x30 <= u <= 0x39) || (0x41 <= u <= 0x46) || (0x61 <= u <= 0x66)
}

/// Positions of the four dashes in the 36 characters after the prefix.
pub open spec fn uuid_dash_position(p: int) -> bool {
    p == 8 || p == 13 || p == 18 || p == 23
}

/// `GPU-` or `MIG-` followed by hex groups of 8-4-4-4-12 digits joined by `-`.
pub open spec fn is_uuid_shaped(s: Seq<char>) -> bool {
    &&& s.len() == 40
    &&& ((s[0] == 'G' && s[1] == 'P' && s[2] == 'U') || (s[0] == 'M' && s[1] == 'I' && s[2] == 'G'))
    &&& s[3] == '-'
    &&& forall|p: int|
        4 <= p < 40 ==> if uuid_dash_position(p - 4) {
            #[trigger] s[p] == '-'
        } else {
            is_hex_digit(s[p])
        }
}

fn hex_digit(c: char) -> (r: bool)
    ensures
        r == is_hex_digit(c),
{
    let u = c as u32;
    (0x30 <= u && u <= 0x39) || (0x41 <= u && u <= 0x46) || (0x61 <= u && u <= 0x66)
}

/// Whether a declared `gpu_id` has the shape of an NVML UUID (`GPU-` or
/// `MIG-` and 8-4-4-4-12 hex digits). Numbered ids such as `node-gpu-0`, or
/// `GPU-gpu-0`, are not UUIDs.
pub fn declared_as_uuid(gpu_id: &str) -> (r: bool)
    ensures
        r == is_uuid_shaped(gpu_id@),
{
    let n = gpu_id.unicode_len();
    if n != 40 {
        return false;
    }
    let c0 = gpu_id.get_char(0);
    let c1 = gpu_id.get_char(1);
    let c2 = gpu_id.get_char(2);
    let c3 = gpu_id.get_char(3);
    if !((c0 == 'G' && c1 == 'P' && c2 == 'U') || (c0 == 'M' && c1 == 'I' && c2 == 'G')) {
        return false;
    }
    if c3 != '-' {
        return false;
    }
    let mut p: usize = 4;
    while p < 40
        invariant
            n == gpu_id@.len(),
            n == 40,
            4 <= p <= 40,
            forall|q: int|
                4 <= q < p ==> if uuid_dash_position(q - 4) {
                    #[trigger] gpu_id@[q] == '-'
                } else {
                    is_hex_digit(gpu_id@[q])
                },
        decreases 40 - p,
    {
        let c = gpu_id.get_char(p);
        let off = p - 4;
        if off == 8 || off == 13 || off == 18 || off == 23 {
            if c != '-' {
                return false;
            }
        } else if !hex_digit(c) {
            return false;
        }
        p = p + 1;
    }
    true
}

/// A declared GPU may be paired with an observed one: same UUID when the
/// declaration names a UUID, same model when it names a model, and at least
/// the declared VRAM.
pub open spec fn gpu_fits(d: GpuInventory, o: ObservedGpu) -> bool {
    &&& (is_uuid_shaped(d.gpu_id@) ==> o.uuid@ == d.gpu_id@)
    &&& (d.model matches Some(m) ==> m@ == o.model@)
    &&& (d.available_vram_bytes matches Some(v) ==> v <= o.total_vram_bytes)
}

/// `m` pairs each declared GPU with a distinct observed GPU that fits it.
pub open spec fn is_gpu_pairing(declared: Seq<GpuInventory>, observed: Seq<ObservedGpu>, m: Seq<int>) -> bool {
    &&& m.len() == declared.len()
    &&& forall|i: int|
        0 <= i < declared.len() ==> 0 <= #[trigger] m[i] < observed.len() && gpu_fits(declared[i], observed[m[i]])
    &&& forall|i1: int, i2: int|
        0 <= i1 < declared.len() && 0 <= i2 < declared.len() && i1 != i2 ==> #[trigger] m[i1] != #[trigger] m[i2]
}

/// Every declared GPU can be paired with its own observed GPU.
pub open spec fn declaration_matches(declared: Seq<GpuInventory>, observed: Seq<ObservedGpu>) -> bool {
    exists|m: Seq<int>| #[trigger] is_gpu_pairing(declared, observed, m)
}

fn fits(d: &GpuInventory, o: &ObservedGpu) -> (r: bool)
    ensures
        r == gpu_fits(*d, *o),
{
    if declared_as_uuid(d.gpu_id.as_str()) && o.uuid != d.gpu_id {
        return false;
    }
    match &d.model {
        Some(m) => {
            if *m != o.model {
                return false;
            }
        },
        None => {},
    }
    match d.available_vram_bytes {
        Some(v) => v <= o.total_vram_bytes,
        None => true,
    }
}

/// Whether each declared GPU can be paired with a **distinct** observed GPU
/// that fits it. Extra observed GPUs are allowed. The search uses augmenting
/// paths, so a greedy first choice never hides a pairing that exists.
pub fn match_declaration(declared: &[GpuInventory], observed: &[ObservedGpu]) -> (r: Result<(), String>)
    ensures
        r is Ok <==> declaration_matches(declared@, observed@),
{
    let mut adj: Vec<Vec<bool>> = Vec::new();
    let mut i: usize = 0;
    while i < declared.len()
        invariant
            i <= declared@.len(),
            adj@.len() == i,
            forall|r: int|
                0 <= r < i ==> (#[trigger] adj@[r])@.len() == observed@.len() && forall|c: int|
                    0 <= c < observed@.len() ==> adj@[r]@[c] == gpu_fits(declared@[r], observed@[c]),
        decreases declared@.len() - i,
    {
        let mut row: Vec<bool> = Vec::new();
        let mut j: usize = 0;
        while j < observed.len()
            invariant
                j <= observed@.len(),
                i < declared@.len(),
                row@.len() == j,
                forall|c: int| 0 <= c < j ==> row@[c] == gpu_fits(declared@[i as int], observed@[c]),
            decreases observed@.len() - j,
        {
            row.push(fits(&declared[i], &observed[j]));
            j = j + 1;
        }
        adj.push(row);
        i = i + 1;
    }
    let n_cols = observed.len();
    proof {
        assert(rectangular(adj@, n_cols as int));
        assert forall|m: Seq<int>| is_assignment(adj@, n_cols as int, declared@.len() as int, m)
            <==> #[trigger] is_gpu_pairing(declared@, observed@, m) by {
        }
    }
    match assign_all_rows(&adj, n_cols) {
        Ok(()) => {
            proof {
                let m = choose|m: Seq<int>| #[trigger] is_assignment(adj@, n_cols as int, adj@.len() as int, m);
                assert(is_gpu_pairing(declared@, observed@, m));
            }
            Ok(())
        },
        Err(failed) => {
            proof {
                if declaration_matches(declared@, observed@) {
                    let m = choose|m: Seq<int>| #[trigger] is_gpu_pairing(declared@, observed@, m);
                    let prefix = m.take(failed + 1);
                    assert(is_assignment(adj@, n_cols as int, failed + 1, prefix));
                }
            }
            let gpu = &declared[failed];
            let mut e = String::from_str("no observed GPU can be paired with declared GPU ");
            push_str(&mut e, gpu.gpu_id.as_str());
            push_str(&mut e, "; observed:");
            let mut j: usize = 0;
            while j < observed.len()
                decreases observed@.len() - j,
            {
                push_str(&mut e, " ");
                push_str(&mut e, observed[j].uuid.as_str());
                push_str(&mut e, ":");
                push_str(&mut e, observed[j].model.as_str());
                push_str(&mut e, ":");
                push_decimal(&mut e, observed[j].total_vram_bytes);
                j = j + 1;
            }
            Err(e)
        },
    }
}

} // verus!
