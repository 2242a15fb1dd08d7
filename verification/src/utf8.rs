use vstd::prelude::*;

verus! {

// UTF-8 validity of a byte sequence, defined by the shortest-form encoding
// rules: one-byte units below 0x80, two-byte units with leads 0xC2-0xDF,
// three-byte units with leads 0xE0-0xEF (surrogates excluded), four-byte
// units with leads 0xF0-0xF4 (scalar values capped at 0x10FFFF).

pub open spec fn is_ascii_byte(b: u8) -> bool {
    b < 0x80
}

pub open spec fn is_cont_byte(b: u8) -> bool {
    0x80 <= b && b < 0xC0
}

pub open spec fn valid_two_byte(b0: u8, b1: u8) -> bool {
    &&& 0xC2 <= b0 && b0 < 0xE0
    &&& is_cont_byte(b1)
}

pub open spec fn valid_three_byte(b0: u8, b1: u8, b2: u8) -> bool {
    &&& 0xE0 <= b0 && b0 < 0xF0
    &&& if b0 == 0xE0 {
            0xA0 <= b1 && b1 < 0xC0
        } else if b0 == 0xED {
            0x80 <= b1 && b1 < 0xA0
        } else {
            is_cont_byte(b1)
        }
    &&& is_cont_byte(b2)
}

pub open spec fn valid_four_byte(b0: u8, b1: u8, b2: u8, b3: u8) -> bool {
    &&& 0xF0 <= b0 && b0 <= 0xF4
    &&& if b0 == 0xF0 {
            0x90 <= b1 && b1 < 0xC0
        } else if b0 == 0xF4 {
            0x80 <= b1 && b1 < 0x90
        } else {
            is_cont_byte(b1)
        }
    &&& is_cont_byte(b2)
    &&& is_cont_byte(b3)
}

/// A byte sequence is valid UTF-8 when it splits into a run of valid units.
/// The lead-byte ranges of the four unit shapes are disjoint, so at most one
/// branch applies at any position.
pub open spec fn is_utf8(s: Seq<u8>) -> bool
    decreases s.len(),
{
    if s.len() == 0 {
        true
    } else if is_ascii_byte(s[0]) {
        is_utf8(s.skip(1))
    } else if s.len() >= 2 && valid_two_byte(s[0], s[1]) {
        is_utf8(s.skip(2))
    } else if s.len() >= 3 && valid_three_byte(s[0], s[1], s[2]) {
        is_utf8(s.skip(3))
    } else if s.len() >= 4 && valid_four_byte(s[0], s[1], s[2], s[3]) {
        is_utf8(s.skip(4))
    } else {
        false
    }
}

/// Checks whether `bytes` is valid UTF-8; every text unit must pass this
/// check before it is handed to the synthesis engine.
pub fn validate_utf8(bytes: &[u8]) -> (r: bool)
    ensures
        r == is_utf8(bytes@),
{
    let n = bytes.len();
    let mut i: usize = 0;
    proof {
        assert(bytes@.skip(0) =~= bytes@);
    }
    while i < n
        invariant
            i <= n,
            n == bytes@.len(),
            is_utf8(bytes@) == is_utf8(bytes@.skip(i as int)),
        decreases n - i,
    {
        let b0 = bytes[i];
        let rem = n - i;
        if b0 < 0x80 {
            proof {
                assert(bytes@.skip(i as int).skip(1) =~= bytes@.skip(i as int + 1));
            }
            i = i + 1;
        } else if 0xC2 <= b0 && b0 < 0xE0 {
            if rem < 2 || !(0x80 <= bytes[i + 1] && bytes[i + 1] < 0xC0) {
                proof {
                    assert(!is_utf8(bytes@.skip(i as int)));
                }
                return false;
            }
            proof {
                assert(bytes@.skip(i as int).skip(2) =~= bytes@.skip(i as int + 2));
            }
            i = i + 2;
        } else if 0xE0 <= b0 && b0 < 0xF0 {
            let b1_ok = rem >= 2 && {
                let b1 = bytes[i + 1];
                if b0 == 0xE0 {
                    0xA0 <= b1 && b1 < 0xC0
                } else if b0 == 0xED {
                    0x80 <= b1 && b1 < 0xA0
                } else {
                    0x80 <= b1 && b1 < 0xC0
                }
            };
            if !b1_ok || rem < 3 || !(0x80 <= bytes[i + 2] && bytes[i + 2] < 0xC0) {
                proof {
                    assert(!is_utf8(bytes@.skip(i as int)));
                }
                return false;
            }
            proof {
                assert(bytes@.skip(i as int).skip(3) =~= bytes@.skip(i as int + 3));
            }
            i = i + 3;
        } else if 0xF0 <= b0 && b0 <= 0xF4 {
            let b1_ok = rem >= 2 && {
                let b1 = bytes[i + 1];
                if b0 == 0xF0 {
                    0x90 <= b1 && b1 < 0xC0
                } else if b0 == 0xF4 {
                    0x80 <= b1 && b1 < 0x90
                } else {
                    0x80 <= b1 && b1 < 0xC0
                }
            };
            if !b1_ok || rem < 4 || !(0x80 <= bytes[i + 2] && bytes[i + 2] < 0xC0)
                || !(0x80 <= bytes[i + 3] && bytes[i + 3] < 0xC0) {
                proof {
                    assert(!is_utf8(bytes@.skip(i as int)));
                }
                return false;
            }
            proof {
                assert(bytes@.skip(i as int).skip(4) =~= bytes@.skip(i as int + 4));
            }
            i = i + 4;
        } else {
            proof {
                assert(!is_utf8(bytes@.skip(i as int)));
            }
            return false;
        }
    }
    proof {
        assert(bytes@.skip(n as int) =~= Seq::<u8>::empty());
    }
    true
}

} // verus!
