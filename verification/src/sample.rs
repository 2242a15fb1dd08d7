use vstd::prelude::*;
use vstd::arithmetic::power2::{
    lemma2_to64, lemma_pow2_adds, lemma_pow2_strictly_increases, pow2,
};

verus! {

// The engine's container may carry 16-bit integer samples while the output
// side is fixed to 32-bit float. The quotient v / 32768 of a signed 16-bit
// value v is exactly representable as a single-precision float (its magnitude
// has at most 16 significand bits), so the conversion is pure integer data:
// this module computes the IEEE-754 bit pattern of that float.

/// Index of the most significant set bit (0 for values 0 and 1).
pub open spec fn msb_index(m: nat) -> nat
    decreases m,
{
    if m < 2 {
        0
    } else {
        msb_index((m / 2) as nat) + 1
    }
}

/// The most significant set bit brackets a value between two powers of two.
proof fn lemma_msb_bounds(m: nat)
    requires
        m >= 1,
    ensures
        pow2(msb_index(m)) <= m < pow2(msb_index(m) + 1),
    decreases m,
{
    lemma2_to64();
    if m >= 2 {
        let h = (m / 2) as nat;
        lemma_msb_bounds(h);
        let k = msb_index(h);
        lemma_pow2_adds(k, 1);
        lemma_pow2_adds(k + 1, 1);
        assert(m >= 2 * (m / 2));
        assert(m < 2 * (m / 2) + 2);
    }
}

/// The signed sample value carried by the unsigned little-endian word `w`:
/// its sign (true = negative) and its magnitude, in the range 1 ..= 0x8000.
pub open spec fn pcm16_sign(w: u16) -> bool {
    w >= 0x8000
}

pub open spec fn pcm16_magnitude(w: u16) -> nat {
    if w >= 0x8000 {
        (0x10000 - w) as nat
    } else {
        w as nat
    }
}

/// IEEE-754 single-precision bit pattern of the float `v / 32768`, where `v`
/// is the signed 16-bit sample encoded by the word `w`. For a nonzero
/// magnitude `m` with top bit `k`, the float is `m * 2^(k - 15)` normalised:
/// biased exponent `k + 112`, mantissa `m` shifted so its top bit becomes the
/// implicit one.
pub open spec fn pcm16_sample_bits(w: u16) -> u32 {
    if w == 0 {
        0u32
    } else {
        let sign: int = if pcm16_sign(w) {
            0x8000_0000
        } else {
            0
        };
        let m = pcm16_magnitude(w);
        let k = msb_index(m);
        (sign + (112 + k) * 0x80_0000 + (m * pow2((23 - k) as nat) - 0x80_0000)) as u32
    }
}

/// Converts one little-endian PCM16 word to the bit pattern of the
/// 32-bit float `v / 32768`.
pub fn pcm16_to_f32_bits(w: u16) -> (r: u32)
    ensures
        r == pcm16_sample_bits(w),
{
    if w == 0 {
        return 0;
    }
    let sign: u32 = if w >= 0x8000 {
        0x8000_0000
    } else {
        0
    };
    let m: u32 = if w >= 0x8000 {
        0x10000 - (w as u32)
    } else {
        w as u32
    };
    proof {
        lemma_msb_bounds(m as nat);
        lemma2_to64();
        if msb_index(m as nat) > 15 {
            lemma_pow2_strictly_increases(15, msb_index(m as nat));
        }
        assert(msb_index(m as nat) <= 15);
    }
    let ghost km = msb_index(m as nat);
    let mut k: u32 = 0;
    let mut t: u32 = m;
    while t >= 2
        invariant
            1 <= t <= m,
            km == k + msb_index(t as nat),
            km == msb_index(m as nat),
            km <= 15,
        decreases t,
    {
        t = t / 2;
        k = k + 1;
    }
    proof {
        assert(msb_index(t as nat) == 0);
        assert(k == km);
    }
    let shift: u32 = 23 - k;
    let mut p: u32 = 1;
    let mut j: u32 = 0;
    proof {
        assert(p == pow2(0)) by {
            lemma2_to64();
        }
    }
    while j < shift
        invariant
            j <= shift <= 23,
            p == pow2(j as nat),
        decreases shift - j,
    {
        proof {
            lemma2_to64();
            lemma_pow2_adds(j as nat, 1);
            lemma_pow2_strictly_increases(j as nat, 23);
        }
        p = p * 2;
        j = j + 1;
    }
    proof {
        lemma2_to64();
        lemma_pow2_adds((k + 1) as nat, (23 - k) as nat);
        lemma_pow2_adds(k as nat, (23 - k) as nat);
        assert((m as nat) * (p as nat) < pow2(24)) by (nonlinear_arith)
            requires
                (m as nat) < pow2((k + 1) as nat),
                (p as nat) == pow2((23 - k) as nat),
                pow2(24) == pow2((k + 1) as nat) * pow2((23 - k) as nat),
                (p as nat) >= 1,
        {
        }
        assert((m as nat) * (p as nat) >= pow2(23)) by (nonlinear_arith)
            requires
                (m as nat) >= pow2(k as nat),
                (p as nat) == pow2((23 - k) as nat),
                pow2(23) == pow2(k as nat) * pow2((23 - k) as nat),
        {
        }
    }
    let scaled: u32 = m * p;
    let mantissa: u32 = scaled - 0x80_0000;
    let exponent: u32 = (112 + k) * 0x80_0000;
    sign + exponent + mantissa
}

} // verus!
