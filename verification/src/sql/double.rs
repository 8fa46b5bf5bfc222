//! Doubles, held as the bits of their IEEE 754 encoding.

use vstd::prelude::*;

verus! {

/// Whether the encoded number is below zero, or minus zero, or a negative NaN.
pub open spec fn negative(bits: u64) -> bool {
    bits >= 0x8000_0000_0000_0000
}

/// The eleven bits of the exponent.
pub open spec fn exponent(bits: u64) -> nat {
    ((bits / 0x10_0000_0000_0000) % 0x800) as nat
}

/// The fifty-two bits of the fraction.
pub open spec fn fraction(bits: u64) -> nat {
    (bits % 0x10_0000_0000_0000) as nat
}

/// The integer whose multiple by a power of two the number is.
pub open spec fn significand(bits: u64) -> nat {
    if exponent(bits) == 0 {
        fraction(bits)
    } else {
        0x10_0000_0000_0000 + fraction(bits)
    }
}

/// Whether the bits encode no number.
pub open spec fn nan(bits: u64) -> bool {
    exponent(bits) == 0x7ff && fraction(bits) != 0
}

/// A number that is not negative without what is behind its point. It is its significand times two
/// to the power of its exponent less 1075, where the exponent counts as one where it is zero.
pub open spec fn truncated(bits: u64) -> nat {
    let p: nat = if exponent(bits) == 0 {
        1
    } else {
        exponent(bits)
    };
    if p < 1075 {
        significand(bits) / vstd::arithmetic::power2::pow2((1075 - p) as nat)
    } else {
        significand(bits) * vstd::arithmetic::power2::pow2((p - 1075) as nat)
    }
}

/// The number as an unsigned integer: zero for what is negative or no number, the largest integer
/// for infinity and for what is larger.
pub open spec fn as_unsigned(bits: u64) -> u64 {
    if negative(bits) || nan(bits) {
        0
    } else if exponent(bits) == 0x7ff || truncated(bits) > u64::MAX {
        u64::MAX
    } else {
        truncated(bits) as u64
    }
}

/// The number as an unsigned integer.
pub fn to_unsigned(bits: u64) -> (r: u64)
    ensures
        r == as_unsigned(bits),
{
    if bits >= 0x8000_0000_0000_0000 {
        return 0;
    }
    let exp = (bits / 0x10_0000_0000_0000) % 0x800;
    let frac = bits % 0x10_0000_0000_0000;
    if exp == 0x7ff {
        return if frac != 0 {
            0
        } else {
            u64::MAX
        };
    }
    if exp < 1023 {
        proof {
            vstd::arithmetic::power2::lemma2_to64_rest();
            let p: nat = if exp == 0 { 1 } else { exp as nat };
            assert(significand(bits) < vstd::arithmetic::power2::pow2(53)) by {
                assert(vstd::arithmetic::power2::pow2(53) == 0x20_0000_0000_0000);
            }
            if 53 < (1075 - p) {
                vstd::arithmetic::power2::lemma_pow2_strictly_increases(53, (1075 - p) as nat);
            }
            let d = vstd::arithmetic::power2::pow2((1075 - p) as nat);
            assert(significand(bits) / d == 0) by (nonlinear_arith)
                requires
                    significand(bits) < d,
            ;
        }
        return 0;
    }
    let sig: u64 = 0x10_0000_0000_0000 + frac;
    if exp <= 1075 {
        let shift = 1075 - exp;
        proof {
            vstd::bits::lemma_u64_shr_is_div(sig, shift);
            vstd::arithmetic::power2::lemma2_to64();
            vstd::arithmetic::power2::lemma_pow2_pos(shift as nat);
            let d = vstd::arithmetic::power2::pow2(shift as nat);
            assert(sig as nat / d <= sig) by (nonlinear_arith)
                requires
                    d > 0,
            ;
            if exp == 1075 {
                assert(sig as nat / 1 == sig);
                assert(truncated(bits) == sig * 1);
            }
        }
        return sig >> shift;
    }
    let shift = exp - 1075;
    if shift <= 11 {
        proof {
            vstd::arithmetic::power2::lemma2_to64();
            vstd::arithmetic::power2::lemma2_to64_rest();
            if shift < 11 {
                vstd::arithmetic::power2::lemma_pow2_strictly_increases(shift as nat, 11);
            }
            let m = vstd::arithmetic::power2::pow2(shift as nat);
            assert(sig * m <= u64::MAX) by (nonlinear_arith)
                requires
                    sig < 0x20_0000_0000_0000,
                    m <= 2048,
            ;
            vstd::bits::lemma_u64_shl_is_mul(sig, shift);
        }
        return sig << shift;
    }
    proof {
        vstd::arithmetic::power2::lemma2_to64();
        if 12 < shift {
            vstd::arithmetic::power2::lemma_pow2_strictly_increases(12, shift as nat);
        }
        let m = vstd::arithmetic::power2::pow2(shift as nat);
        assert(sig * m > u64::MAX) by (nonlinear_arith)
            requires
                sig >= 0x10_0000_0000_0000,
                m >= 4096,
        ;
    }
    u64::MAX
}

} // verus!
