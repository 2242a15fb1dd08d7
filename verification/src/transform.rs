use crate::engine::SynthesisError;
use crate::utf8::{is_utf8, validate_utf8};
use crate::wav::{decode, spec_decode, DecodeError};
use vstd::prelude::*;

verus! {

// The transform core: a single-input/single-output converter invoked
// serially by the host. Each invocation takes at most one queued text unit,
// validates it, has the engine synthesize it, decodes the engine's
// container-framed response and packages the samples into one output unit.
// The engine call itself is the host's blocking step; the core prepares it
// (`begin_generate`) and consumes its result (`complete_generate`), so every
// decision around the call is verified for every value the call can return.

/// Per-invocation flow faults. The taxonomy exists for diagnostics: every
/// variant propagates to the caller as the same flow fault.
#[derive(Debug, PartialEq, Eq, Structural, Clone, Copy)]
pub enum TransformError {
    /// The queued input unit is not valid UTF-8.
    InvalidEncoding,
    /// The engine's blocking call failed; the cause is wrapped.
    SynthesisFailed(SynthesisError),
    /// The engine's response did not decode; the cause is wrapped.
    DecodeFailed(DecodeError),
    /// The host could not allocate the output unit's buffer. Raised by the
    /// host at packaging time; the library's own packaging aborts rather
    /// than failing, so no library input produces it.
    AllocationFailed,
}

/// A validated synthesis request: text known to be valid UTF-8, bound to
/// the speaker the core is configured for.
pub struct SynthesisRequest {
    pub text: Vec<u8>,
    pub speaker_id: u32,
}

impl SynthesisRequest {
    pub open spec fn well_formed(&self) -> bool {
        is_utf8(self.text@)
    }
}

/// What one invocation asks of the host next: nothing (no input was
/// queued), or one blocking engine call.
pub enum GenerateStep {
    NoOutput,
    Synthesize(SynthesisRequest),
}

/// One output unit: the raw little-endian bytes of 32-bit float samples,
/// tagged with the decoded rate and channel count.
pub struct AudioUnit {
    pub data: Vec<u8>,
    pub sample_rate: u32,
    pub channel_count: u16,
}

/// Byte `j` (little-endian, 0 ..= 3) of a sample word.
pub open spec fn word_byte(w: u32, j: int) -> u8 {
    if j == 0 {
        (w as int % 0x100) as u8
    } else if j == 1 {
        (w as int / 0x100 % 0x100) as u8
    } else if j == 2 {
        (w as int / 0x1_0000 % 0x100) as u8
    } else {
        (w as int / 0x100_0000 % 0x100) as u8
    }
}

/// The little-endian byte image of a sample sequence: four bytes per sample.
pub open spec fn sample_bytes(samples: Seq<u32>) -> Seq<u8> {
    Seq::new(4 * samples.len(), |i: int| word_byte(samples[i / 4], i % 4))
}

/// Serialises sample bit patterns to little-endian bytes. The output holds
/// exactly four bytes per sample: no padding, no truncation.
pub fn pack_samples(samples: &Vec<u32>) -> (r: Vec<u8>)
    ensures
        r@ == sample_bytes(samples@),
        r@.len() == 4 * samples@.len(),
{
    let mut out: Vec<u8> = Vec::new();
    let mut k: usize = 0;
    while k < samples.len()
        invariant
            k <= samples@.len(),
            out@.len() == 4 * k,
            forall|i: int| 0 <= i < out@.len() ==> out@[i] == word_byte(samples@[i / 4], i % 4),
        decreases samples@.len() - k,
    {
        let w = samples[k];
        out.push((w % 0x100) as u8);
        out.push((w / 0x100 % 0x100) as u8);
        out.push((w / 0x1_0000 % 0x100) as u8);
        out.push((w / 0x100_0000 % 0x100) as u8);
        k = k + 1;
    }
    proof {
        assert(out@ =~= sample_bytes(samples@));
    }
    out
}

/// Model of a prepared invocation: no output, or a synthesis request.
pub enum StepModel {
    NoOutput,
    Synthesize(Seq<u8>, u32),
}

/// What preparing one invocation yields: no queued input is the normal
/// "no output" outcome, never a fault; queued input must be valid UTF-8
/// before any engine work happens.
pub open spec fn spec_begin(speaker_id: u32, input: Option<Seq<u8>>) -> Result<
    StepModel,
    TransformError,
> {
    match input {
        Option::None => Ok(StepModel::NoOutput),
        Option::Some(b) => if is_utf8(b) {
            Ok(StepModel::Synthesize(b, speaker_id))
        } else {
            Err(TransformError::InvalidEncoding)
        },
    }
}

/// What completing one invocation yields: the engine's response driven
/// through the container decoder and packaged, or the exact fault.
pub open spec fn spec_complete(synth: Result<Seq<u8>, SynthesisError>) -> Result<
    (Seq<u8>, u32, u16),
    TransformError,
> {
    match synth {
        Err(e) => Err(TransformError::SynthesisFailed(e)),
        Ok(encoded) => match spec_decode(encoded) {
            Err(d) => Err(TransformError::DecodeFailed(d)),
            Ok(m) => Ok((sample_bytes(m.0), m.1, m.2)),
        },
    }
}

/// The transform core around one exclusively owned engine; it holds no
/// state across invocations beyond the configured speaker.
pub struct TransformCore {
    pub speaker_id: u32,
}

impl TransformCore {
    pub fn new(speaker_id: u32) -> (r: TransformCore)
        ensures
            r.speaker_id == speaker_id,
    {
        TransformCore { speaker_id }
    }

    /// Prepares one invocation from the queued input unit, if any: no input
    /// yields "no output" (a normal occurrence, not a fault); input that is
    /// not valid UTF-8 is refused before any engine work; valid text becomes
    /// one synthesis request for the configured speaker.
    pub fn begin_generate(&self, input: Option<Vec<u8>>) -> (r: Result<
        GenerateStep,
        TransformError,
    >)
        ensures
            ({
                let model = spec_begin(
                    self.speaker_id,
                    match input {
                        Option::Some(b) => Option::Some(b@),
                        Option::None => Option::None,
                    },
                );
                match r {
                    Ok(GenerateStep::NoOutput) => model == Ok::<StepModel, TransformError>(
                        StepModel::NoOutput,
                    ),
                    Ok(GenerateStep::Synthesize(req)) => model == Ok::<StepModel, TransformError>(
                        StepModel::Synthesize(req.text@, req.speaker_id),
                    ) && req.well_formed() && req.speaker_id == self.speaker_id,
                    Err(e) => model == Err::<StepModel, TransformError>(e),
                }
            }),
    {
        match input {
            Option::None => Ok(GenerateStep::NoOutput),
            Option::Some(b) => {
                if validate_utf8(b.as_slice()) {
                    Ok(
                        GenerateStep::Synthesize(
                            SynthesisRequest { text: b, speaker_id: self.speaker_id },
                        ),
                    )
                } else {
                    Err(TransformError::InvalidEncoding)
                }
            },
        }
    }

    /// Completes one invocation from the engine's result: a synthesis fault
    /// propagates as such; a response is decoded and packaged into one
    /// output unit sized exactly to the decoded payload. All-or-nothing: a
    /// fault yields no output unit.
    pub fn complete_generate(&self, synth: Result<Vec<u8>, SynthesisError>) -> (r: Result<
        AudioUnit,
        TransformError,
    >)
        ensures
            ({
                let model = spec_complete(
                    match synth {
                        Ok(v) => Ok(v@),
                        Err(e) => Err(e),
                    },
                );
                match r {
                    Ok(unit) => {
                        &&& model matches Ok(m)
                        &&& unit.data@ == m.0
                        &&& unit.sample_rate == m.1
                        &&& unit.channel_count == m.2
                        &&& unit.data@.len() % 4 == 0
                    },
                    Err(e) => model == Err::<(Seq<u8>, u32, u16), TransformError>(e),
                }
            }),
    {
        match synth {
            Err(e) => Err(TransformError::SynthesisFailed(e)),
            Ok(encoded) => {
                match decode(encoded.as_slice()) {
                    Err(d) => Err(TransformError::DecodeFailed(d)),
                    Ok(dec) => {
                        let data = pack_samples(&dec.samples);
                        Ok(
                            AudioUnit {
                                data,
                                sample_rate: dec.sample_rate,
                                channel_count: dec.channel_count,
                            },
                        )
                    },
                }
            },
        }
    }
}

/// With no input queued, an invocation yields "no output" and never a
/// fault, however many times in a row it is made: the outcome is a pure
/// function of the absent input, and no state changes.
pub proof fn lemma_no_input_idempotent(speaker_id: u32)
    ensures
        spec_begin(speaker_id, Option::None) == Ok::<StepModel, TransformError>(
            StepModel::NoOutput,
        ),
{
}

/// Round-trip sizing: a decoded sample sequence of length N packages into
/// exactly 4 * N output bytes.
pub proof fn lemma_output_sizing(samples: Seq<u32>)
    ensures
        sample_bytes(samples).len() == 4 * samples.len(),
{
}

/// Input that is not valid UTF-8 produces the encoding fault and no
/// synthesis request, so zero output units.
pub proof fn lemma_invalid_encoding_faults(speaker_id: u32, input: Seq<u8>)
    requires
        !is_utf8(input),
    ensures
        spec_begin(speaker_id, Option::Some(input)) == Err::<StepModel, TransformError>(
            TransformError::InvalidEncoding,
        ),
{
}

} // verus!
