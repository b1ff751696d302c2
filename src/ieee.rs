//! A 64-bit IEEE 754 value carried by its bit pattern, and its narrowing to
//! a signed integer.
use vstd::arithmetic::power2::{
    lemma2_to64, lemma2_to64_rest, lemma_pow2_pos, lemma_pow2_strictly_increases, lemma_pow2_unfold,
    pow2,
};
use vstd::prelude::*;

verus! {

/// A 64-bit IEEE 754 binary floating-point value, held by its bit pattern so
/// that it is carried and compared exactly.
#[derive(Clone, Copy, Debug, PartialEq, Eq, Structural)]
pub struct Ieee64 {
    pub bits: u64,
}

/// The sign bit: 0 for positive values, 1 for negative ones.
pub open spec fn sign_of(b: u64) -> int {
    b as int / pow2(63) as int
}

/// The biased exponent field (11 bits).
pub open spec fn exponent_of(b: u64) -> int {
    (b as int / pow2(52) as int) % 2048
}

/// The stored fraction field (52 bits).
pub open spec fn fraction_of(b: u64) -> int {
    b as int % pow2(52) as int
}

/// The magnitude of a finite value, truncated toward zero.
pub open spec fn truncated_magnitude(b: u64) -> int {
    let e = exponent_of(b);
    let m = fraction_of(b) + pow2(52);
    if e < 1023 {
        0
    } else if e >= 1075 {
        m * pow2((e - 1075) as nat)
    } else {
        m / pow2((1075 - e) as nat) as int
    }
}

/// `v` held within the range of `i64`.
pub open spec fn clamp_i64(v: int) -> int {
    if v < i64::MIN {
        i64::MIN as int
    } else if v > i64::MAX {
        i64::MAX as int
    } else {
        v
    }
}

/// The value of a 64-bit float truncated toward zero and saturated to the
/// range of `i64`; NaN gives zero.
pub open spec fn truncate_spec(b: u64) -> int {
    if exponent_of(b) == 2047 {
        if fraction_of(b) != 0 {
            0
        } else if sign_of(b) == 0 {
            i64::MAX as int
        } else {
            i64::MIN as int
        }
    } else if sign_of(b) == 0 {
        clamp_i64(truncated_magnitude(b))
    } else {
        clamp_i64(-truncated_magnitude(b))
    }
}

fn power_of_two(k: u64) -> (r: u64)
    requires
        k <= 62,
    ensures
        r as int == pow2(k as nat),
{
    let mut p: u64 = 1;
    let mut i: u64 = 0;
    proof {
        lemma2_to64();
    }
    while i < k
        invariant
            i <= k <= 62,
            p as int == pow2(i as nat),
        decreases k - i,
    {
        proof {
            lemma_pow2_unfold((i + 1) as nat);
            lemma_pow2_strictly_increases((i + 1) as nat, 63);
            lemma2_to64_rest();
        }
        p = p * 2;
        i = i + 1;
    }
    p
}

impl Ieee64 {
    /// Narrows the value to an integer, truncating toward zero: values beyond
    /// the range of `i64` saturate at its bounds, and NaN gives zero.
    pub fn truncate_to_i64(self) -> (r: i64)
        ensures
            r as int == truncate_spec(self.bits),
    {
        proof {
            lemma2_to64();
            lemma2_to64_rest();
        }
        let b = self.bits;
        let sign = b / 0x8000_0000_0000_0000u64;
        let e = (b / 0x10_0000_0000_0000u64) % 2048;
        let frac = b % 0x10_0000_0000_0000u64;
        assert(sign == sign_of(b) && e == exponent_of(b) && frac == fraction_of(b));
        if e == 2047 {
            if frac != 0 {
                0
            } else if sign == 0 {
                i64::MAX
            } else {
                i64::MIN
            }
        } else if e < 1023 {
            0
        } else {
            let m: u64 = frac + 0x10_0000_0000_0000u64;
            if e >= 1086 {
                proof {
                    let k = (e - 1075) as nat;
                    if k > 11 {
                        lemma_pow2_strictly_increases(11, k);
                    }
                    assert(m * pow2(k) >= pow2(52) * pow2(11)) by (nonlinear_arith)
                        requires
                            m >= pow2(52),
                            pow2(k) >= pow2(11),
                    ;
                    assert(pow2(52) * pow2(11) == 0x8000_0000_0000_0000);
                }
                if sign == 0 {
                    i64::MAX
                } else {
                    i64::MIN
                }
            } else if e >= 1075 {
                let p = power_of_two(e - 1075);
                proof {
                    if e - 1075 < 10 {
                        lemma_pow2_strictly_increases((e - 1075) as nat, 10);
                    }
                    assert(m * p < 0x8000_0000_0000_0000) by (nonlinear_arith)
                        requires
                            m < 0x20_0000_0000_0000u64,
                            p <= 1024,
                    ;
                }
                let mag = (m * p) as i64;
                if sign == 0 {
                    mag
                } else {
                    -mag
                }
            } else {
                let p = power_of_two(1075 - e);
                proof {
                    lemma_pow2_pos((1075 - e) as nat);
                }
                let mag = (m / p) as i64;
                if sign == 0 {
                    mag
                } else {
                    -mag
                }
            }
        }
    }
}

} // verus!
