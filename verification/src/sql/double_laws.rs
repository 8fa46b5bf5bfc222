//! What doubles as whole numbers promise.

use vstd::prelude::*;

use super::double;
use vstd::arithmetic::power2::pow2;

verus! {

/// A double that is below zero, minus zero or no number counts as zero.
pub proof fn law_no_number_counts_as_zero(bits: u64)
    requires
        bits >= 0x8000_0000_0000_0000 || bits > 0x7ff0_0000_0000_0000,
    ensures
        double::as_unsigned(bits) == 0,
{
    if bits < 0x8000_0000_0000_0000 {
        assert(bits / 0x10_0000_0000_0000 == 0x7ff);
        assert(bits % 0x10_0000_0000_0000 != 0);
    }
}

/// Infinity counts as the largest whole number.
pub proof fn law_infinity_counts_as_the_largest()
    ensures
        double::as_unsigned(0x7ff0_0000_0000_0000) == u64::MAX,
{
}

/// A double with the exponent `e` and the fraction `f`, which stands for `2^52 + f` times two to the
/// power of `e - 1075`, counts as the largest whole number that is not above it, or as the largest
/// that there is. One with the exponent zero counts as zero.
pub proof fn law_doubles_are_rounded_down(e: u64, f: u64)
    requires
        e < 0x7ff,
        f < 0x10_0000_0000_0000,
    ensures
        ({
            let t = double::as_unsigned((e * 0x10_0000_0000_0000 + f) as u64) as nat;
            let m = 0x10_0000_0000_0000 + f;
            if e == 0 {
                t == 0
            } else if e <= 1075 {
                let d = pow2((1075 - e) as nat);
                t * d <= m < (t + 1) * d
            } else {
                let whole = m * pow2((e - 1075) as nat);
                t == (if whole <= u64::MAX {
                    whole
                } else {
                    u64::MAX as int
                })
            }
        }),
{
    let bits = (e * 0x10_0000_0000_0000 + f) as u64;
    assert(e * 0x10_0000_0000_0000 + f < 0x8000_0000_0000_0000);
    assert(bits / 0x10_0000_0000_0000 == e);
    assert(bits % 0x10_0000_0000_0000 == f);
    assert(double::exponent(bits) == e);
    assert(double::fraction(bits) == f);
    if e == 0 {
        let d = pow2(1074);
        vstd::arithmetic::power2::lemma2_to64_rest();
        vstd::arithmetic::power2::lemma_pow2_strictly_increases(53, 1074);
        assert(double::truncated(bits) == f as nat / d);
        assert(f as nat / d == 0) by (nonlinear_arith)
            requires
                f < d,
        ;
    } else if e < 1075 {
        let m = (0x10_0000_0000_0000 + f) as nat;
        let d = pow2((1075 - e) as nat);
        vstd::arithmetic::power2::lemma_pow2_pos((1075 - e) as nat);
        let t = m / d;
        assert(double::truncated(bits) == t);
        assert(t * d <= m < (t + 1) * d) by (nonlinear_arith)
            requires
                d > 0,
                t == m / d,
        ;
        assert(t <= m) by (nonlinear_arith)
            requires
                d > 0,
                t == m / d,
        ;
    } else if e == 1075 {
        vstd::arithmetic::power2::lemma2_to64();
        let m = (0x10_0000_0000_0000 + f) as nat;
        assert(double::truncated(bits) == m * 1);
    }
}

} // verus!
