//! Doubles by their bits.

use vstd::arithmetic::mul::*;
use vstd::arithmetic::power2::*;
use vstd::prelude::*;

verus! {

/// The bits of the double 1.
pub const ONE_BITS: u64 = 0x3ff0_0000_0000_0000;

/// The bits of infinity. A double whose bits, without the sign, are more is not a number.
pub const INFINITY_BITS: u64 = 0x7ff0_0000_0000_0000;

/// The bit that tells that a double is negative.
pub const SIGN_BIT: u64 = 0x8000_0000_0000_0000;

/// 2 to the power of 52: the number of doubles of one sign and one exponent.
pub const FRACTIONS: u64 = 0x10_0000_0000_0000;

/// The bits of a double's absolute value.
pub open spec fn magnitude(bits: u64) -> u64 {
    bits % SIGN_BIT
}

/// Whether the double with these bits has a negative sign.
pub open spec fn has_sign(bits: u64) -> bool {
    bits >= SIGN_BIT
}

/// The numerator of the finite double with these bits, which has no sign.
pub open spec fn numerator(bits: u64) -> nat {
    if bits / FRACTIONS == 0 {
        (bits % FRACTIONS) as nat
    } else {
        (FRACTIONS + bits % FRACTIONS) as nat
    }
}

/// The binary logarithm of the denominator of the double with these bits, which
/// has no sign and does not exceed 1.
pub open spec fn scale(bits: u64) -> nat {
    if bits / FRACTIONS == 0 {
        1074
    } else {
        (1075 - bits / FRACTIONS) as nat
    }
}

/// The bits of the same number with the other sign.
pub open spec fn negated(bits: u64) -> u64 {
    if has_sign(bits) {
        (bits - SIGN_BIT) as u64
    } else {
        (bits + SIGN_BIT) as u64
    }
}

/// The absolute value of the double with these bits, in multiples of the smallest
/// positive double, which is 1 / 2^1074. Infinity counts as what would follow the
/// largest finite double.
pub open spec fn absolute(bits: u64) -> nat {
    let positive = magnitude(bits);
    numerator(positive) * pow2(
        if positive < 0x10_0000_0000_0000 {
            0
        } else {
            (positive / 0x10_0000_0000_0000 - 1) as nat
        },
    )
}

/// The bits of a double are its sign and its absolute value.
pub proof fn sign_and_magnitude(bits: u64)
    ensures
        magnitude(bits) < 0x8000_0000_0000_0000,
        has_sign(bits) ==> bits == 0x8000_0000_0000_0000 + magnitude(bits),
        !has_sign(bits) ==> bits == magnitude(bits),
        absolute(bits) == absolute(magnitude(bits)),
        magnitude(negated(bits)) == magnitude(bits),
        has_sign(negated(bits)) <==> !has_sign(bits),
        negated(negated(bits)) == bits,
{
}

/// How the bits of a double without a sign are made up: 52 of them are the fraction.
/// Without an exponent above them, they count multiples of 1 / 2^1074; otherwise they
/// come on top of 2^52, and each step of the exponent doubles the whole.
pub proof fn bits_denote(bits: u64)
    requires
        bits < 0x8000_0000_0000_0000,
    ensures
        numerator(bits) < 0x20_0000_0000_0000,
        bits < 0x10_0000_0000_0000 ==> numerator(bits) == bits && scale(bits) == 1074 && absolute(
            bits,
        ) == bits,
        bits >= 0x10_0000_0000_0000 ==> {
            &&& numerator(bits) >= 0x10_0000_0000_0000
            &&& bits == (bits / 0x10_0000_0000_0000) * 0x10_0000_0000_0000 + numerator(bits)
                - 0x10_0000_0000_0000
            &&& absolute(bits) == numerator(bits) * pow2(
                (bits / 0x10_0000_0000_0000 - 1) as nat,
            )
        },
        0x10_0000_0000_0000 <= bits <= 0x3ff0_0000_0000_0000 ==> scale(bits) == 1075 - bits
            / 0x10_0000_0000_0000,
{
    lemma2_to64();
    lemma_mul_basics(numerator(bits) as int);
}

/// A double that does not exceed 1 is its numerator over 2 to the power of its scale.
pub proof fn fraction_is_the_double(bits: u64)
    requires
        bits <= 0x3ff0_0000_0000_0000,
    ensures
        absolute(bits) * pow2(scale(bits)) == numerator(bits) * pow2(1074),
{
    bits_denote(bits);
    if bits >= 0x10_0000_0000_0000 {
        let exponent = bits / 0x10_0000_0000_0000;
        let step = (exponent - 1) as nat;
        lemma_pow2_adds(step, scale(bits));
        lemma_mul_is_associative(
            numerator(bits) as int,
            pow2(step) as int,
            pow2(scale(bits)) as int,
        );
    }
}

/// Doubles without a sign order as their bits do.
pub proof fn bits_order_as_doubles(one: u64, other: u64)
    requires
        one < 0x8000_0000_0000_0000,
        other < 0x8000_0000_0000_0000,
    ensures
        absolute(one) < absolute(other) <==> one < other,
{
    if one < other {
        smaller_bits_smaller_double(one, other);
    } else if other < one {
        smaller_bits_smaller_double(other, one);
    }
}

proof fn smaller_bits_smaller_double(smaller: u64, larger: u64)
    requires
        smaller < larger < 0x8000_0000_0000_0000,
    ensures
        absolute(smaller) < absolute(larger),
{
    bits_denote(smaller);
    bits_denote(larger);
    lemma2_to64();
    let low = smaller / 0x10_0000_0000_0000;
    let high = larger / 0x10_0000_0000_0000;
    let below = numerator(smaller);
    let above = numerator(larger);
    if high >= 1 {
        let step = pow2((high - 1) as nat);
        lemma_pow2_pos((high - 1) as nat);
        if low == 0 {
            assert(above * step >= 0x10_0000_0000_0000) by (nonlinear_arith)
                requires
                    above >= 0x10_0000_0000_0000,
                    step >= 1,
            ;
        } else if low == high {
            assert(below * step < above * step) by (nonlinear_arith)
                requires
                    below < above,
                    step >= 1,
            ;
        } else {
            let small_step = pow2((low - 1) as nat);
            lemma_pow2_pos((low - 1) as nat);
            lemma_pow2_unfold(low as nat);
            if low < high - 1 {
                lemma_pow2_strictly_increases(low as nat, (high - 1) as nat);
            }
            assert(below * small_step < above * step) by (nonlinear_arith)
                requires
                    below < 0x20_0000_0000_0000,
                    above >= 0x10_0000_0000_0000,
                    step >= 2 * small_step,
                    small_step >= 1,
            ;
        }
    }
}

} // verus!
