use crate::sample::{pcm16_sample_bits, pcm16_to_f32_bits};
use vstd::prelude::*;

verus! {

// The synthesis engine frames its audio response as a RIFF/WAVE container:
// a 12-byte outer header, then a list of chunks, each an id, a little-endian
// 32-bit size, the body, and a pad byte after an odd-sized body. The format
// chunk declares the sample encoding; the data chunk carries the samples.
// Supported encodings are 32-bit IEEE float (passed through) and 16-bit
// integer PCM (converted to float bit patterns); anything else is refused.

/// Faults raised while decoding the engine's container-framed audio response.
#[derive(Debug, PartialEq, Eq, Structural, Clone, Copy)]
pub enum DecodeError {
    InvalidHeader,
    UnsupportedFormat,
    TruncatedData,
}

/// The fields of the container's format chunk that the decoder reads.
#[derive(Debug, PartialEq, Eq, Structural, Clone, Copy)]
pub struct FmtInfo {
    pub audio_format: u16,
    pub channel_count: u16,
    pub sample_rate: u32,
    pub bits_per_sample: u16,
}

/// Decoded interleaved samples: each element is the IEEE-754 bit pattern of
/// one 32-bit float sample.
pub struct DecodedSamples {
    pub samples: Vec<u32>,
    pub sample_rate: u32,
    pub channel_count: u16,
}

impl DecodedSamples {
    /// Samples interleave whole frames: one sample per channel.
    pub open spec fn well_formed(&self) -> bool {
        &&& self.channel_count >= 1
        &&& self.samples@.len() % (self.channel_count as nat) == 0
    }
}

pub open spec fn le16_at(s: Seq<u8>, i: int) -> u16 {
    (s[i] as int + s[i + 1] as int * 0x100) as u16
}

pub open spec fn le32_at(s: Seq<u8>, i: int) -> u32 {
    (s[i] as int + s[i + 1] as int * 0x100 + s[i + 2] as int * 0x1_0000 + s[i + 3] as int
        * 0x100_0000) as u32
}

/// The outer header: "RIFF", a size word the decoder does not rely on, "WAVE".
pub open spec fn is_riff_wave(s: Seq<u8>) -> bool {
    &&& s.len() >= 12
    &&& s[0] == 0x52 && s[1] == 0x49 && s[2] == 0x46 && s[3] == 0x46
    &&& s[8] == 0x57 && s[9] == 0x41 && s[10] == 0x56 && s[11] == 0x45
}

/// Chunk id "fmt " at position `p`.
pub open spec fn is_fmt_id(s: Seq<u8>, p: int) -> bool {
    s[p] == 0x66 && s[p + 1] == 0x6D && s[p + 2] == 0x74 && s[p + 3] == 0x20
}

/// Chunk id "data" at position `p`.
pub open spec fn is_data_id(s: Seq<u8>, p: int) -> bool {
    s[p] == 0x64 && s[p + 1] == 0x61 && s[p + 2] == 0x74 && s[p + 3] == 0x61
}

pub open spec fn read_fmt(s: Seq<u8>, body: int) -> FmtInfo {
    FmtInfo {
        audio_format: le16_at(s, body),
        channel_count: le16_at(s, body + 2),
        sample_rate: le32_at(s, body + 4),
        bits_per_sample: le16_at(s, body + 14),
    }
}

pub open spec fn chunk_pad(size: int) -> int {
    if size % 2 == 1 {
        1
    } else {
        0
    }
}

/// Walks the chunk list from `pos` until the data chunk; `fmt` carries the
/// format chunk seen so far. Yields the format info with the data body's
/// offset and size, or the fault: a list that ends (or a non-data chunk that
/// overruns the input) before a data chunk is a header fault, a data body
/// larger than the input is truncated data.
pub open spec fn scan_chunks(s: Seq<u8>, pos: int, fmt: Option<FmtInfo>) -> Result<
    (FmtInfo, int, int),
    DecodeError,
>
    decreases s.len() + 1 - pos,
{
    if pos + 8 > s.len() {
        Err(DecodeError::InvalidHeader)
    } else {
        let size = le32_at(s, pos + 4) as int;
        if is_data_id(s, pos) {
            match fmt {
                Option::None => Err(DecodeError::InvalidHeader),
                Option::Some(f) => if pos + 8 + size > s.len() {
                    Err(DecodeError::TruncatedData)
                } else {
                    Ok((f, pos + 8, size))
                },
            }
        } else if pos + 8 + size > s.len() {
            Err(DecodeError::InvalidHeader)
        } else if is_fmt_id(s, pos) {
            if size < 16 {
                Err(DecodeError::InvalidHeader)
            } else {
                scan_chunks(s, pos + 8 + size + chunk_pad(size), Option::Some(read_fmt(s, pos + 8)))
            }
        } else {
            scan_chunks(s, pos + 8 + size + chunk_pad(size), fmt)
        }
    }
}

/// The data body splits into whole samples, and the samples into whole
/// frames of one sample per channel.
pub open spec fn frames_ok(len: int, bytes_per: int, channels: int) -> bool {
    &&& len % bytes_per == 0
    &&& (len / bytes_per) % channels == 0
}

pub open spec fn float32_samples(s: Seq<u8>, off: int, n: int) -> Seq<u32> {
    Seq::new(n as nat, |k: int| le32_at(s, off + 4 * k))
}

pub open spec fn pcm16_samples(s: Seq<u8>, off: int, n: int) -> Seq<u32> {
    Seq::new(n as nat, |k: int| pcm16_sample_bits(le16_at(s, off + 2 * k)))
}

/// What decoding yields on every input: the sample bit patterns with the
/// declared rate and channel count, or the exact fault.
pub open spec fn spec_decode(s: Seq<u8>) -> Result<(Seq<u32>, u32, u16), DecodeError> {
    if !is_riff_wave(s) {
        Err(DecodeError::InvalidHeader)
    } else {
        match scan_chunks(s, 12, Option::None) {
            Err(e) => Err(e),
            Ok((f, off, len)) => {
                if f.channel_count == 0 {
                    Err(DecodeError::InvalidHeader)
                } else if f.audio_format == 3 && f.bits_per_sample == 32 {
                    if !frames_ok(len, 4, f.channel_count as int) {
                        Err(DecodeError::TruncatedData)
                    } else {
                        Ok((float32_samples(s, off, len / 4), f.sample_rate, f.channel_count))
                    }
                } else if f.audio_format == 1 && f.bits_per_sample == 16 {
                    if !frames_ok(len, 2, f.channel_count as int) {
                        Err(DecodeError::TruncatedData)
                    } else {
                        Ok((pcm16_samples(s, off, len / 2), f.sample_rate, f.channel_count))
                    }
                } else {
                    Err(DecodeError::UnsupportedFormat)
                }
            },
        }
    }
}

fn le16_exec(bytes: &[u8], i: usize) -> (r: u16)
    requires
        i + 2 <= bytes@.len(),
    ensures
        r == le16_at(bytes@, i as int),
{
    bytes[i] as u16 + (bytes[i + 1] as u16) * 0x100
}

fn le32_exec(bytes: &[u8], i: usize) -> (r: u32)
    requires
        i + 4 <= bytes@.len(),
    ensures
        r == le32_at(bytes@, i as int),
{
    bytes[i] as u32 + (bytes[i + 1] as u32) * 0x100 + (bytes[i + 2] as u32) * 0x1_0000 + (bytes[i
        + 3] as u32) * 0x100_0000
}

/// Finds the format and data chunks, mirroring `scan_chunks` from the first
/// chunk position.
fn scan_exec(bytes: &[u8]) -> (r: Result<(FmtInfo, usize, usize), DecodeError>)
    requires
        bytes@.len() >= 12,
    ensures
        match r {
            Ok(t) => scan_chunks(bytes@, 12, Option::None) == Ok::<_, DecodeError>(
                (t.0, t.1 as int, t.2 as int),
            ) && t.1 + t.2 <= bytes@.len(),
            Err(e) => scan_chunks(bytes@, 12, Option::None) == Err::<(FmtInfo, int, int), _>(e),
        },
{
    let n = bytes.len();
    let mut pos: usize = 12;
    let mut fmt: Option<FmtInfo> = Option::None;
    while n - pos >= 8
        invariant
            12 <= pos <= n,
            n == bytes@.len(),
            scan_chunks(bytes@, 12, Option::None) == scan_chunks(bytes@, pos as int, fmt),
        decreases n - pos,
    {
        let size32 = le32_exec(bytes, pos + 4);
        let size = size32 as usize;
        let body = pos + 8;
        let is_data = bytes[pos] == 0x64 && bytes[pos + 1] == 0x61 && bytes[pos + 2] == 0x74
            && bytes[pos + 3] == 0x61;
        if is_data {
            match fmt {
                Option::None => {
                    return Err(DecodeError::InvalidHeader);
                },
                Option::Some(f) => {
                    if size > n - body {
                        return Err(DecodeError::TruncatedData);
                    }
                    return Ok((f, body, size));
                },
            }
        }
        if size > n - body {
            return Err(DecodeError::InvalidHeader);
        }
        let is_fmt = bytes[pos] == 0x66 && bytes[pos + 1] == 0x6D && bytes[pos + 2] == 0x74
            && bytes[pos + 3] == 0x20;
        if is_fmt {
            if size < 16 {
                return Err(DecodeError::InvalidHeader);
            }
            fmt = Option::Some(
                FmtInfo {
                    audio_format: le16_exec(bytes, body),
                    channel_count: le16_exec(bytes, body + 2),
                    sample_rate: le32_exec(bytes, body + 4),
                    bits_per_sample: le16_exec(bytes, body + 14),
                },
            );
        }
        let ghost old_pos = pos as int;
        let ghost spec_next = old_pos + 8 + size as int + chunk_pad(size as int);
        pos = body + size;
        if size % 2 == 1 && pos < n {
            pos = pos + 1;
        }
        proof {
            if pos < spec_next {
                // the pad byte would sit past the end; both positions leave
                // fewer than a chunk header's bytes, so the scan result agrees
                assert(pos == n && spec_next == n + 1);
                assert(scan_chunks(bytes@, n as int, fmt) == Err::<
                    (FmtInfo, int, int),
                    _,
                >(DecodeError::InvalidHeader));
                assert(scan_chunks(bytes@, n as int + 1, fmt) == Err::<
                    (FmtInfo, int, int),
                    _,
                >(DecodeError::InvalidHeader));
            }
        }
    }
    proof {
        assert(scan_chunks(bytes@, pos as int, fmt) == Err::<
            (FmtInfo, int, int),
            _,
        >(DecodeError::InvalidHeader));
    }
    Err(DecodeError::InvalidHeader)
}

/// Parses the container header and decodes the sample data to 32-bit float
/// bit patterns, converting 16-bit integer PCM when the header declares it.
pub fn decode(bytes: &[u8]) -> (r: Result<DecodedSamples, DecodeError>)
    ensures
        match r {
            Ok(d) => {
                &&& spec_decode(bytes@) matches Ok(m)
                &&& d.samples@ == m.0
                &&& d.sample_rate == m.1
                &&& d.channel_count == m.2
                &&& d.well_formed()
            },
            Err(e) => spec_decode(bytes@) == Err::<(Seq<u32>, u32, u16), _>(e),
        },
{
    let n = bytes.len();
    if n < 12 {
        return Err(DecodeError::InvalidHeader);
    }
    let riff = bytes[0] == 0x52 && bytes[1] == 0x49 && bytes[2] == 0x46 && bytes[3] == 0x46
        && bytes[8] == 0x57 && bytes[9] == 0x41 && bytes[10] == 0x56 && bytes[11] == 0x45;
    if !riff {
        return Err(DecodeError::InvalidHeader);
    }
    let scanned = scan_exec(bytes);
    match scanned {
        Err(e) => Err(e),
        Ok((f, off, len)) => {
            let channels = f.channel_count as usize;
            if channels == 0 {
                return Err(DecodeError::InvalidHeader);
            }
            if f.audio_format == 3 && f.bits_per_sample == 32 {
                if len % 4 != 0 || (len / 4) % channels != 0 {
                    return Err(DecodeError::TruncatedData);
                }
                let count = len / 4;
                let mut samples: Vec<u32> = Vec::new();
                let mut k: usize = 0;
                while k < count
                    invariant
                        k <= count,
                        count == len / 4,
                        len % 4 == 0,
                        off + len <= n,
                        n == bytes@.len(),
                        samples@.len() == k as nat,
                        forall|j: int|
                            0 <= j < k ==> samples@[j] == le32_at(bytes@, off + 4 * j),
                    decreases count - k,
                {
                    proof {
                        assert(4 * (k as int) + 4 <= 4 * (len as int / 4));
                        assert(4 * (len as int / 4) == len as int);
                    }
                    let w = le32_exec(bytes, off + 4 * k);
                    samples.push(w);
                    k = k + 1;
                }
                proof {
                    assert(samples@ =~= float32_samples(bytes@, off as int, count as int));
                }
                Ok(DecodedSamples { samples, sample_rate: f.sample_rate, channel_count: f.channel_count })
            } else if f.audio_format == 1 && f.bits_per_sample == 16 {
                if len % 2 != 0 || (len / 2) % channels != 0 {
                    return Err(DecodeError::TruncatedData);
                }
                let count = len / 2;
                let mut samples: Vec<u32> = Vec::new();
                let mut k: usize = 0;
                while k < count
                    invariant
                        k <= count,
                        count == len / 2,
                        len % 2 == 0,
                        off + len <= n,
                        n == bytes@.len(),
                        samples@.len() == k as nat,
                        forall|j: int|
                            0 <= j < k ==> samples@[j] == pcm16_sample_bits(
                                le16_at(bytes@, off + 2 * j),
                            ),
                    decreases count - k,
                {
                    proof {
                        assert(2 * (k as int) + 2 <= 2 * (len as int / 2));
                        assert(2 * (len as int / 2) == len as int);
                    }
                    let w = le16_exec(bytes, off + 2 * k);
                    samples.push(pcm16_to_f32_bits(w));
                    k = k + 1;
                }
                proof {
                    assert(samples@ =~= pcm16_samples(bytes@, off as int, count as int));
                }
                Ok(DecodedSamples { samples, sample_rate: f.sample_rate, channel_count: f.channel_count })
            } else {
                Err(DecodeError::UnsupportedFormat)
            }
        },
    }
}

} // verus!
