use vstd::prelude::*;

verus! {

// The synthesis engine itself is an outside process boundary driven by the
// surrounding host: the library fixes its configuration surface and the
// order of engine operations a synthesis call performs, so that both
// model-loading modes demonstrably have the voice model in place before the
// blocking synthesis call runs.

/// Fatal fault at engine construction, surfaced once at startup: the engine
/// could not be built, for instance because the voice dictionary resource is
/// missing at the configured path.
#[derive(Debug, PartialEq, Eq, Structural, Clone, Copy)]
pub enum StartupError {
    DictionaryUnavailable,
    EngineInitFailed,
}

/// Per-call faults of the synthesis engine.
#[derive(Debug, PartialEq, Eq, Structural, Clone, Copy)]
pub enum SynthesisError {
    ModelLoadFailed,
    EngineFailure,
}

/// Hardware acceleration selection handed to the engine at construction.
#[derive(Debug, PartialEq, Eq, Structural, Clone, Copy)]
pub enum AccelerationMode {
    Auto,
    Cpu,
    Gpu,
}

/// When the voice model for a speaker is loaded: explicitly before every
/// synthesis call, or automatically when the engine is constructed.
#[derive(Debug, PartialEq, Eq, Structural, Clone, Copy)]
pub enum ModelLoadingPolicy {
    Eager,
    AutoOnInit,
}

/// Engine configuration, supplied at construction instead of being embedded
/// as literals; the host validates the dictionary path eagerly and aborts
/// element creation on a `StartupError`.
pub struct EngineConfig {
    pub acceleration: AccelerationMode,
    pub thread_count: u32,
    pub loading_policy: ModelLoadingPolicy,
    pub dictionary_path: String,
    pub speaker_id: u32,
}

/// One step of the engine interaction for a synthesis call.
#[derive(Debug, PartialEq, Eq, Structural, Clone, Copy)]
pub enum EngineOp {
    LoadModel(u32),
    Synthesize(u32),
}

/// The engine operations one synthesis call performs, in order.
pub open spec fn spec_plan(policy: ModelLoadingPolicy, speaker_id: u32) -> Seq<EngineOp> {
    match policy {
        ModelLoadingPolicy::Eager => seq![
            EngineOp::LoadModel(speaker_id),
            EngineOp::Synthesize(speaker_id),
        ],
        ModelLoadingPolicy::AutoOnInit => seq![EngineOp::Synthesize(speaker_id)],
    }
}

/// The voice model for the speaker is in place when the synthesis step runs:
/// either the engine loads models itself at construction, or an explicit
/// load step precedes the synthesis step.
pub open spec fn model_loaded_before_synthesis(
    policy: ModelLoadingPolicy,
    ops: Seq<EngineOp>,
    speaker_id: u32,
) -> bool {
    ||| policy is AutoOnInit
    ||| exists|i: int, j: int|
        0 <= i < j < ops.len() && ops[i] == EngineOp::LoadModel(speaker_id) && ops[j]
            == EngineOp::Synthesize(speaker_id)
}

/// The construction flag handed to the engine: whether it loads voice
/// models itself at construction time.
pub fn auto_load_at_init(policy: &ModelLoadingPolicy) -> (b: bool)
    ensures
        b == (policy is AutoOnInit),
{
    match policy {
        ModelLoadingPolicy::Eager => false,
        ModelLoadingPolicy::AutoOnInit => true,
    }
}

/// Plans one synthesis call: an explicit model load first under the eager
/// policy, then the blocking synthesis call; nothing else.
pub fn plan_synthesis(policy: &ModelLoadingPolicy, speaker_id: u32) -> (ops: Vec<EngineOp>)
    ensures
        ops@ == spec_plan(*policy, speaker_id),
        ops@.len() >= 1,
        ops@.last() == EngineOp::Synthesize(speaker_id),
{
    let mut ops: Vec<EngineOp> = Vec::new();
    match policy {
        ModelLoadingPolicy::Eager => {
            ops.push(EngineOp::LoadModel(speaker_id));
            ops.push(EngineOp::Synthesize(speaker_id));
            proof {
                assert(ops@ =~= spec_plan(ModelLoadingPolicy::Eager, speaker_id));
            }
        },
        ModelLoadingPolicy::AutoOnInit => {
            ops.push(EngineOp::Synthesize(speaker_id));
            proof {
                assert(ops@ =~= spec_plan(ModelLoadingPolicy::AutoOnInit, speaker_id));
            }
        },
    }
    ops
}

/// Under either loading policy, the model for the requested speaker is
/// guaranteed in place before the synthesis call executes: automatically at
/// construction, or by the explicit load step the plan puts first.
pub proof fn lemma_model_available(policy: ModelLoadingPolicy, speaker_id: u32)
    ensures
        model_loaded_before_synthesis(policy, spec_plan(policy, speaker_id), speaker_id),
{
    match policy {
        ModelLoadingPolicy::Eager => {
            let ops = spec_plan(policy, speaker_id);
            assert(ops[0] == EngineOp::LoadModel(speaker_id));
            assert(ops[1] == EngineOp::Synthesize(speaker_id));
        },
        ModelLoadingPolicy::AutoOnInit => {
        },
    }
}

} // verus!
