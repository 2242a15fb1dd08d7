use voicevox_tts::caps::{
    intersect, native_caps, negotiate, CapabilitySet, CapsEntry, Direction, MediaKind,
    DEFAULT_SAMPLE_RATE,
};
use voicevox_tts::engine::{
    auto_load_at_init, plan_synthesis, EngineOp, ModelLoadingPolicy, SynthesisError,
};
use voicevox_tts::sample::pcm16_to_f32_bits;
use voicevox_tts::transform::{
    pack_samples, AudioUnit, GenerateStep, TransformCore, TransformError,
};
use voicevox_tts::utf8::validate_utf8;
use voicevox_tts::wav::{decode, DecodeError};

fn wav_bytes(format: u16, channels: u16, rate: u32, bits: u16, data: &[u8]) -> Vec<u8> {
    let mut v: Vec<u8> = Vec::new();
    v.extend_from_slice(b"RIFF");
    v.extend_from_slice(&(36u32 + data.len() as u32).to_le_bytes());
    v.extend_from_slice(b"WAVE");
    v.extend_from_slice(b"fmt ");
    v.extend_from_slice(&16u32.to_le_bytes());
    v.extend_from_slice(&format.to_le_bytes());
    v.extend_from_slice(&channels.to_le_bytes());
    v.extend_from_slice(&rate.to_le_bytes());
    let byte_rate = rate * channels as u32 * (bits as u32 / 8);
    v.extend_from_slice(&byte_rate.to_le_bytes());
    let block_align = channels * (bits / 8);
    v.extend_from_slice(&block_align.to_le_bytes());
    v.extend_from_slice(&bits.to_le_bytes());
    v.extend_from_slice(b"data");
    v.extend_from_slice(&(data.len() as u32).to_le_bytes());
    v.extend_from_slice(data);
    v
}

// Bytes of the five-character Japanese greeting used as the end-to-end
// text input: fifteen bytes, five three-byte UTF-8 units.
fn greeting_bytes() -> Vec<u8> {
    vec![
        0xE3, 0x81, 0x93, 0xE3, 0x82, 0x93, 0xE3, 0x81, 0xAB, 0xE3, 0x81, 0xA1, 0xE3, 0x81, 0xAF,
    ]
}

#[test]
fn utf8_accepts_ascii_and_multibyte() {
    assert!(validate_utf8(b""));
    assert!(validate_utf8(b"hello"));
    assert!(validate_utf8(&greeting_bytes()));
    // two-byte and four-byte units
    assert!(validate_utf8(&[0xC3, 0xA9]));
    assert!(validate_utf8(&[0xF0, 0x9F, 0x8E, 0xB5]));
}

#[test]
fn utf8_rejects_invalid_sequences() {
    // bytes that can never appear in UTF-8
    assert!(!validate_utf8(&[0xFF, 0xFE]));
    // truncated multi-byte unit
    assert!(!validate_utf8(&[0xE3, 0x81]));
    // multi-byte unit with an invalid continuation byte
    assert!(!validate_utf8(&[0xE3, 0x81, 0xFF]));
    // lone continuation byte
    assert!(!validate_utf8(&[0x80]));
    // overlong two-byte encoding
    assert!(!validate_utf8(&[0xC0, 0xAF]));
    // surrogate half
    assert!(!validate_utf8(&[0xED, 0xA0, 0x80]));
}

#[test]
fn pcm16_conversion_matches_float_division() {
    for w in [0u16, 1, 2, 3, 0x1234, 0x4000, 0x7FFF, 0x8000, 0x8001, 0xC000, 0xFFFF] {
        let signed = w as i16;
        let expected = (signed as f32 / 32768.0).to_bits();
        assert_eq!(pcm16_to_f32_bits(w), expected, "word {w:#06x}");
    }
}

#[test]
fn pcm16_conversion_exact_patterns() {
    assert_eq!(pcm16_to_f32_bits(0x0000), 0x0000_0000); // 0.0
    assert_eq!(pcm16_to_f32_bits(0x4000), 0x3F00_0000); // 0.5
    assert_eq!(pcm16_to_f32_bits(0x8000), 0xBF80_0000); // -1.0
    assert_eq!(pcm16_to_f32_bits(0x7FFF), 0x3F7F_FE00); // 32767 / 32768
}

#[test]
fn decode_float32_passes_samples_through() {
    let samples: [f32; 3] = [0.0, 0.5, -0.25];
    let mut data: Vec<u8> = Vec::new();
    for s in samples {
        data.extend_from_slice(&s.to_le_bytes());
    }
    let wav = wav_bytes(3, 1, 22050, 32, &data);
    let d = decode(&wav).unwrap();
    assert_eq!(d.sample_rate, 22050);
    assert_eq!(d.channel_count, 1);
    let got: Vec<u32> = d.samples.clone();
    let want: Vec<u32> = samples.iter().map(|s| s.to_bits()).collect();
    assert_eq!(got, want);
    // packaging restores exactly the data bytes
    assert_eq!(pack_samples(&d.samples), data);
}

#[test]
fn decode_pcm16_converts_to_float_bits() {
    let words: [u16; 4] = [0x0000, 0x4000, 0x8000, 0x7FFF];
    let mut data: Vec<u8> = Vec::new();
    for w in words {
        data.extend_from_slice(&w.to_le_bytes());
    }
    let wav = wav_bytes(1, 2, 24000, 16, &data);
    let d = decode(&wav).unwrap();
    assert_eq!(d.sample_rate, 24000);
    assert_eq!(d.channel_count, 2);
    let got: Vec<u32> = d.samples.clone();
    assert_eq!(got, vec![0x0000_0000, 0x3F00_0000, 0xBF80_0000, 0x3F7F_FE00]);
}

#[test]
fn decode_skips_unknown_chunks() {
    let mut data: Vec<u8> = Vec::new();
    data.extend_from_slice(&0x4000u16.to_le_bytes());
    let mut wav = wav_bytes(1, 1, 22050, 16, &data);
    // splice an unknown chunk with an odd body (pad byte follows) between
    // the outer header and the format chunk
    let mut extra: Vec<u8> = Vec::new();
    extra.extend_from_slice(b"LIST");
    extra.extend_from_slice(&3u32.to_le_bytes());
    extra.extend_from_slice(&[1, 2, 3, 0]);
    let tail = wav.split_off(12);
    wav.extend_from_slice(&extra);
    wav.extend_from_slice(&tail);
    let d = decode(&wav).unwrap();
    assert_eq!(d.samples.len(), 1);
    assert_eq!(d.samples[0], 0x3F00_0000);
}

#[test]
fn decode_faults_on_bad_headers() {
    // too short for the outer header
    assert!(matches!(decode(&[0x52, 0x49]), Err(DecodeError::InvalidHeader)));
    // wrong magic
    let mut wav = wav_bytes(1, 1, 22050, 16, &[]);
    wav[0] = b'X';
    assert!(matches!(decode(&wav), Err(DecodeError::InvalidHeader)));
    // no data chunk
    let wav = wav_bytes(1, 1, 22050, 16, &[]);
    let truncated = &wav[..36];
    assert!(matches!(decode(truncated), Err(DecodeError::InvalidHeader)));
    // data chunk before any format chunk
    let mut bare: Vec<u8> = Vec::new();
    bare.extend_from_slice(b"RIFF");
    bare.extend_from_slice(&4u32.to_le_bytes());
    bare.extend_from_slice(b"WAVE");
    bare.extend_from_slice(b"data");
    bare.extend_from_slice(&0u32.to_le_bytes());
    assert!(matches!(decode(&bare), Err(DecodeError::InvalidHeader)));
    // zero channels
    let wav = wav_bytes(1, 0, 22050, 16, &[0, 0]);
    assert!(matches!(decode(&wav), Err(DecodeError::InvalidHeader)));
}

#[test]
fn decode_faults_on_unsupported_encodings() {
    // 8-bit integer PCM
    let wav = wav_bytes(1, 1, 22050, 8, &[1, 2]);
    assert!(matches!(decode(&wav), Err(DecodeError::UnsupportedFormat)));
    // 64-bit float
    let wav = wav_bytes(3, 1, 22050, 64, &[0; 8]);
    assert!(matches!(decode(&wav), Err(DecodeError::UnsupportedFormat)));
    // unknown format tag
    let wav = wav_bytes(7, 1, 22050, 16, &[0, 0]);
    assert!(matches!(decode(&wav), Err(DecodeError::UnsupportedFormat)));
}

#[test]
fn decode_faults_on_truncated_data() {
    // data chunk declares more bytes than the input holds
    let mut wav = wav_bytes(1, 1, 22050, 16, &[0, 0]);
    let n = wav.len();
    wav[n - 6] = 100; // data size field
    assert!(matches!(decode(&wav), Err(DecodeError::TruncatedData)));
    // partial sample
    let wav = wav_bytes(1, 1, 22050, 16, &[0, 0, 0]);
    assert!(matches!(decode(&wav), Err(DecodeError::TruncatedData)));
    // partial frame: stereo with an odd sample count
    let wav = wav_bytes(1, 2, 22050, 16, &[0, 0, 0, 0, 0, 0]);
    assert!(matches!(decode(&wav), Err(DecodeError::TruncatedData)));
}

#[test]
fn negotiation_native_sides() {
    let up = negotiate(Direction::Upstream, None);
    assert_eq!(up.entries.len(), 1);
    assert_eq!(up.entries[0].media, MediaKind::TextUtf8);
    assert_eq!(up.entries[0].channels, 0);
    assert!(up.entries[0].rates.is_empty());

    let down = negotiate(Direction::Downstream, None);
    assert_eq!(down.entries.len(), 1);
    assert_eq!(down.entries[0].media, MediaKind::AudioPcmF32);
    assert_eq!(down.entries[0].channels, 1);
    assert_eq!(down.entries[0].rates, vec![DEFAULT_SAMPLE_RATE]);
}

#[test]
fn negotiation_filter_first_wins() {
    let filter = CapabilitySet {
        entries: vec![CapsEntry {
            media: MediaKind::AudioPcmF32,
            channels: 0,
            rates: vec![44100, 22050, 8000],
        }],
    };
    let r = negotiate(Direction::Downstream, Some(&filter));
    assert_eq!(r.entries.len(), 1);
    assert_eq!(r.entries[0].media, MediaKind::AudioPcmF32);
    assert_eq!(r.entries[0].channels, 1);
    // only the shared rate survives, in the filter's order
    assert_eq!(r.entries[0].rates, vec![22050]);
}

#[test]
fn negotiation_disjoint_filter_yields_empty_set() {
    // wrong media kind for the output side
    let filter = CapabilitySet {
        entries: vec![CapsEntry { media: MediaKind::TextUtf8, channels: 0, rates: vec![] }],
    };
    let r = negotiate(Direction::Downstream, Some(&filter));
    assert!(r.entries.is_empty());

    // right media kind, disjoint rates
    let filter = CapabilitySet {
        entries: vec![CapsEntry {
            media: MediaKind::AudioPcmF32,
            channels: 1,
            rates: vec![44100, 48000],
        }],
    };
    let r = negotiate(Direction::Downstream, Some(&filter));
    assert!(r.entries.is_empty());

    // right media kind, conflicting channel counts
    let filter = CapabilitySet {
        entries: vec![CapsEntry { media: MediaKind::AudioPcmF32, channels: 2, rates: vec![] }],
    };
    let r = negotiate(Direction::Downstream, Some(&filter));
    assert!(r.entries.is_empty());
}

#[test]
fn intersection_keeps_filter_entry_order() {
    let filter = CapabilitySet {
        entries: vec![
            CapsEntry { media: MediaKind::AudioPcmF32, channels: 2, rates: vec![] },
            CapsEntry { media: MediaKind::AudioPcmF32, channels: 1, rates: vec![] },
        ],
    };
    let native = native_caps(Direction::Downstream);
    let r = intersect(&filter, &native);
    // the incompatible first entry drops out; the second matches
    assert_eq!(r.entries.len(), 1);
    assert_eq!(r.entries[0].channels, 1);
    assert_eq!(r.entries[0].rates, vec![DEFAULT_SAMPLE_RATE]);
}

#[test]
fn engine_plan_orders_model_load_first() {
    let eager = plan_synthesis(&ModelLoadingPolicy::Eager, 1);
    assert_eq!(eager, vec![EngineOp::LoadModel(1), EngineOp::Synthesize(1)]);
    let auto = plan_synthesis(&ModelLoadingPolicy::AutoOnInit, 1);
    assert_eq!(auto, vec![EngineOp::Synthesize(1)]);
    assert!(!auto_load_at_init(&ModelLoadingPolicy::Eager));
    assert!(auto_load_at_init(&ModelLoadingPolicy::AutoOnInit));
}

#[test]
fn no_input_yields_no_output_repeatedly() {
    let core = TransformCore::new(1);
    for _ in 0..2 {
        let r = core.begin_generate(None);
        assert!(matches!(r, Ok(GenerateStep::NoOutput)));
    }
}

#[test]
fn invalid_input_bytes_fault_before_synthesis() {
    let core = TransformCore::new(1);
    let r = core.begin_generate(Some(vec![0xFF, 0xFE]));
    assert!(matches!(r, Err(TransformError::InvalidEncoding)));
    let r = core.begin_generate(Some(vec![0xE3, 0x81]));
    assert!(matches!(r, Err(TransformError::InvalidEncoding)));
}

#[test]
fn empty_text_unit_is_forwarded_and_empty_audio_is_well_formed() {
    let core = TransformCore::new(1);
    let r = core.begin_generate(Some(Vec::new()));
    match r {
        Ok(GenerateStep::Synthesize(req)) => {
            assert!(req.text.is_empty());
            assert_eq!(req.speaker_id, 1);
        }
        _ => panic!("empty text must still reach the engine"),
    }
    // a zero-length engine response decodes to a zero-length output unit
    let wav = wav_bytes(1, 1, 22050, 16, &[]);
    let out = core.complete_generate(Ok(wav));
    match out {
        Ok(unit) => {
            assert!(unit.data.is_empty());
            assert_eq!(unit.sample_rate, 22050);
        }
        _ => panic!("zero-length audio must package cleanly"),
    }
    // garbage instead of a container is a defined decode fault
    let out = core.complete_generate(Ok(vec![1, 2, 3]));
    assert!(matches!(
        out,
        Err(TransformError::DecodeFailed(DecodeError::InvalidHeader))
    ));
}

#[test]
fn greeting_round_trip_produces_one_output_unit() {
    let core = TransformCore::new(1);
    let step = core.begin_generate(Some(greeting_bytes()));
    let req = match step {
        Ok(GenerateStep::Synthesize(req)) => req,
        _ => panic!("valid text must become a synthesis request"),
    };
    assert_eq!(req.text.len(), 15);
    assert_eq!(req.speaker_id, 1);
    // the engine's response, as the container it frames: mono PCM16 at the
    // negotiated rate
    let mut data: Vec<u8> = Vec::new();
    for w in [0x0100u16, 0x0200, 0x0300, 0x8000, 0x7FFF] {
        data.extend_from_slice(&w.to_le_bytes());
    }
    let wav = wav_bytes(1, 1, 22050, 16, &data);
    let unit = match core.complete_generate(Ok(wav)) {
        Ok(unit) => unit,
        Err(e) => panic!("synthesis response must decode: {e:?}"),
    };
    assert!(unit.data.len() > 0);
    assert_eq!(unit.data.len() % 4, 0);
    assert_eq!(unit.data.len(), 4 * 5);
    assert_eq!(unit.sample_rate, DEFAULT_SAMPLE_RATE);
    assert_eq!(unit.channel_count, 1);
}

#[test]
fn invalid_sequence_faults_with_zero_output_units() {
    let core = TransformCore::new(1);
    let r = core.begin_generate(Some(vec![0xFF, 0xFE]));
    match r {
        Err(TransformError::InvalidEncoding) => {}
        _ => panic!("invalid bytes must raise the encoding fault"),
    }
}

#[test]
fn synthesis_faults_propagate() {
    let core = TransformCore::new(1);
    let r = core.complete_generate(Err(SynthesisError::EngineFailure));
    assert!(matches!(
        r,
        Err(TransformError::SynthesisFailed(SynthesisError::EngineFailure))
    ));
    let r = core.complete_generate(Err(SynthesisError::ModelLoadFailed));
    assert!(matches!(
        r,
        Err(TransformError::SynthesisFailed(SynthesisError::ModelLoadFailed))
    ));
}

#[test]
fn output_unit_sizing_is_exact() {
    let samples: Vec<u32> = vec![0xAABBCCDD, 0x00000000, 0x3F000000];
    let bytes = pack_samples(&samples);
    assert_eq!(bytes.len(), 12);
    assert_eq!(&bytes[0..4], &[0xDD, 0xCC, 0xBB, 0xAA]);
    let unit = AudioUnit { data: bytes, sample_rate: 22050, channel_count: 1 };
    assert_eq!(unit.data.len(), 4 * samples.len());
}
