//! The row before which data is split when a given ratio of it, a double, is to be
//! held back for validation, as double-precision arithmetic computes it.

use vstd::arithmetic::div_mod::*;
use vstd::arithmetic::mul::*;
use vstd::arithmetic::power2::*;
use vstd::prelude::*;

use crate::double::{FRACTIONS, INFINITY_BITS, ONE_BITS, SIGN_BIT};
use crate::share::{round_parts, round_to_double, DOUBLE_LIMIT};

verus! {

/// 1 less the ratio, as a numerator over the ratio's denominator. The ratio lies
/// between -1 and 1.
pub open spec fn remainder(ratio_bits: u64) -> nat {
    let one = pow2(crate::double::scale(crate::double::magnitude(ratio_bits)));
    if crate::double::has_sign(ratio_bits) {
        one + crate::double::numerator(crate::double::magnitude(ratio_bits))
    } else {
        (one - crate::double::numerator(crate::double::magnitude(ratio_bits))) as nat
    }
}

/// The whole part of the product of `rows` and 1 less the ratio, each of the three
/// a double and the nearest one. The ratio lies between -1 and 1.
pub open spec fn share_kept(rows: nat, ratio_bits: u64) -> nat {
    crate::share::nearest_double(
        crate::share::nearest_double(rows) * crate::share::nearest_double(remainder(ratio_bits)),
    ) / pow2(crate::double::scale(crate::double::magnitude(ratio_bits)))
}

/// The number of `rows` rows that are kept when the ratio is held back, which is
/// none if the ratio exceeds 1 or is not a number. There is no such number if it
/// exceeds the number of rows; with a ratio below -1 it is at least twice that.
pub open spec fn rows_kept(rows: nat, ratio_bits: u64) -> Option<nat> {
    let magnitude = crate::double::magnitude(ratio_bits);
    let share = share_kept(rows, ratio_bits);
    if magnitude <= ONE_BITS {
        if share <= rows {
            Some(share)
        } else {
            None
        }
    } else if crate::double::has_sign(ratio_bits) && magnitude <= INFINITY_BITS && rows > 0 {
        None
    } else {
        Some(0)
    }
}

/// Every product of a power of two and a number of up to 53 binary digits is a double.
pub proof fn is_double(factor: nat, k: nat)
    requires
        factor <= DOUBLE_LIMIT,
    ensures
        crate::share::nearest_double(factor * pow2(k)) == factor * pow2(k),
{
    let x = factor * pow2(k);
    let j = crate::share::excess_bits(x);
    crate::share::excess_bounds(x);
    lemma_pow2_pos(k);
    lemma_pow2_pos(j);
    if j <= k {
        lemma_pow2_adds(j, (k - j) as nat);
        let rest = pow2((k - j) as nat);
        assert(factor * (pow2(j) * rest) == (factor * rest) * pow2(j)) by (nonlinear_arith);
        crate::share::multiple_is_nearest(factor * rest, pow2(j));
    } else {
        lemma_pow2_unfold((k + 1) as nat);
        let unit = pow2((k + 1) as nat);
        assert(x <= DOUBLE_LIMIT * pow2(k)) by (nonlinear_arith)
            requires
                x == factor * pow2(k),
                factor <= DOUBLE_LIMIT,
                pow2(k) > 0,
        ;
        if j > k + 1 {
            lemma_pow2_strictly_increases((k + 1) as nat, j);
            assert(false);
        }
        assert(x == 4503599627370496 * unit);
        crate::share::multiple_is_nearest(4503599627370496, unit);
    }
}

proof fn nearest_double_of_twice(x: nat)
    ensures
        crate::share::nearest_double(2 * x) == 2 * crate::share::nearest_double(x),
{
    let k = crate::share::excess_bits(x);
    lemma2_to64();
    lemma_pow2_pos(k);
    if 2 * x < DOUBLE_LIMIT {
        crate::share::double_error(x);
        crate::share::double_error(2 * x);
    } else {
        assert((2 * x) / 2 == x);
        assert(crate::share::excess_bits(2 * x) == k + 1);
        lemma_pow2_unfold((k + 1) as nat);
        let unit = pow2(k);
        lemma_div_multiples_vanish_quotient(2, x as int, unit as int);
        lemma_truncate_middle(x as int, 2, unit as int);
        let low = x / unit;
        assert(low * (2 * unit) == 2 * (low * unit)) by (nonlinear_arith);
        assert((low + 1) * (2 * unit) == 2 * ((low + 1) * unit)) by (nonlinear_arith);
    }
}

/// Rounding does not depend on the scale.
pub proof fn nearest_double_scales(x: nat, k: nat)
    ensures
        crate::share::nearest_double(x * pow2(k)) == crate::share::nearest_double(x) * pow2(k),
    decreases k,
{
    lemma2_to64();
    if k == 0 {
        assert(x * 1 == x);
    } else {
        let less = (k - 1) as nat;
        let half = pow2(less);
        lemma_pow2_unfold(k);
        nearest_double_scales(x, less);
        nearest_double_of_twice(x * half);
        let rounded = crate::share::nearest_double(x);
        assert(x * (2 * half) == 2 * (x * half)) by (nonlinear_arith);
        assert(rounded * (2 * half) == 2 * (rounded * half)) by (nonlinear_arith);
    }
}

/// What a tiny ratio leaves of 1 is, as a double, 1.
proof fn tiny_ratio_leaves_all(small: nat, k: nat)
    requires
        k >= 108,
        small < DOUBLE_LIMIT,
    ensures
        small <= pow2(k),
        crate::share::nearest_double((pow2(k) - small) as nat) == pow2(k),
        crate::share::nearest_double(pow2(k) + small) == pow2(k),
{
    lemma2_to64();
    lemma2_to64_rest();
    let j = (k - 53) as nat;
    let unit = pow2(j);
    lemma_pow2_adds(j, 53);
    lemma_pow2_unfold(j);
    lemma_pow2_unfold((j + 1) as nat);
    if j > 55 {
        lemma_pow2_strictly_increases(55, j);
    }
    if small == 0 {
        is_double(1, k);
    } else {
        let below = (pow2(k) - small) as nat;
        excess_is(below, j);
        let low: nat = 9007199254740991;
        let rest = (unit - small) as nat;
        lemma_fundamental_div_mod_converse(below as int, unit as int, low as int, rest as int);

        let above = pow2(k) + small;
        excess_is(above, (j + 1) as nat);
        let half: nat = 4503599627370496;
        lemma_fundamental_div_mod_converse(
            above as int,
            (2 * unit) as int,
            half as int,
            small as int,
        );
        assert((low + 1) * unit == unit * DOUBLE_LIMIT && half * (2 * unit) == unit * DOUBLE_LIMIT)
            by (nonlinear_arith)
            requires
                low + 1 == DOUBLE_LIMIT,
                2 * half == DOUBLE_LIMIT,
        ;
    }
}

/// The number of binary digits beyond 53, told by the number's size.
pub(crate) proof fn excess_is(x: nat, k: nat)
    requires
        k > 0,
        x < DOUBLE_LIMIT * pow2(k),
        2 * x >= DOUBLE_LIMIT * pow2(k),
    ensures
        crate::share::excess_bits(x) == k,
{
    let bits = crate::share::excess_bits(x);
    crate::share::excess_bounds(x);
    lemma_pow2_pos(bits);
    if bits < k {
        lemma_pow2_unfold(k);
        if bits < k - 1 {
            lemma_pow2_strictly_increases(bits, (k - 1) as nat);
        }
    }
    if bits > k {
        lemma_pow2_unfold(bits);
        if bits > k + 1 {
            lemma_pow2_strictly_increases(k, (bits - 1) as nat);
        }
    }
}

fn power_of_two(exponent: u64) -> (power: u128)
    requires
        exponent <= 108,
    ensures
        power == pow2(exponent as nat),
{
    let mut power: u128 = 1;
    let mut i: u64 = 0;
    proof {
        lemma2_to64();
    }
    while i < exponent
        invariant
            i <= exponent <= 108,
            power == pow2(i as nat),
        decreases exponent - i,
    {
        proof {
            lemma_pow2_unfold((i + 1) as nat);
            power_bound((i + 1) as nat);
        }
        power = power * 2;
        i = i + 1;
    }
    power
}

proof fn power_bound(k: nat)
    requires
        k <= 108,
    ensures
        pow2(k) <= 0x1000_0000_0000_0000_0000_0000_0000,
{
    lemma2_to64();
    lemma2_to64_rest();
    lemma_pow2_adds(64, 44);
    if k < 108 {
        lemma_pow2_strictly_increases(k, 108);
    }
}

/// What was rounded once is not changed by rounding it again.
pub proof fn rounding_is_idempotent(x: nat)
    ensures
        crate::share::nearest_double(crate::share::nearest_double(x))
            == crate::share::nearest_double(x),
{
    let k = crate::share::excess_bits(x);
    let unit = pow2(k);
    lemma_pow2_pos(k);
    crate::share::excess_bounds(x);
    assert(x / unit < DOUBLE_LIMIT) by (nonlinear_arith)
        requires
            x < DOUBLE_LIMIT * unit,
            unit > 0,
    ;
    is_double(x / unit, k);
    is_double(x / unit + 1, k);
}

/// The numerator and the denominator of a double that does not exceed 1.
proof fn parts_of_double(bits: u64)
    requires
        bits <= ONE_BITS,
    ensures
        crate::double::numerator(bits) < DOUBLE_LIMIT,
        crate::double::numerator(bits) <= pow2(crate::double::scale(bits)),
        crate::double::scale(bits) >= 52,
{
    lemma2_to64();
    lemma2_to64_rest();
    if crate::double::scale(bits) > 53 {
        lemma_pow2_strictly_increases(53, crate::double::scale(bits));
    }
}

fn kept_share(rows: usize, ratio_bits: u64) -> (share: u128)
    requires
        rows <= i64::MAX,
        crate::double::magnitude(ratio_bits) <= ONE_BITS,
    ensures
        share == share_kept(rows as nat, ratio_bits),
{
    let bits: u64 = ratio_bits % SIGN_BIT;
    let exponent: u64 = bits / FRACTIONS;
    let fraction: u64 = bits % FRACTIONS;
    let top: u64 = if exponent == 0 {
        fraction
    } else {
        FRACTIONS + fraction
    };
    let digits: u64 = if exponent == 0 {
        1074
    } else {
        1075 - exponent
    };
    let count: u128 = round_to_double(rows as u128);
    proof {
        parts_of_double(bits);
        rounding_is_idempotent(rows as nat);
        crate::share::nearest_double_ordered(rows as nat, 0x8000_0000_0000_0000);
        lemma2_to64();
        lemma2_to64_rest();
        is_double(1, 63);
    }
    if digits >= 108 {
        proof {
            let one = pow2(digits as nat);
            tiny_ratio_leaves_all(top as nat, digits as nat);
            nearest_double_scales(count as nat, digits as nat);
            lemma_pow2_pos(digits as nat);
            lemma_div_by_multiple(count as int, one as int);
        }
        return count;
    }
    let one: u128 = power_of_two(digits);
    proof {
        power_bound(digits as nat);
    }
    let rest: u128 = if ratio_bits >= SIGN_BIT {
        one + top as u128
    } else {
        one - top as u128
    };
    let parts = round_parts(rest);
    proof {
        scale_covers_excess(rest as nat, digits as nat);
        assert(count * parts.factor <= 0x8000_0000_0000_0000 * 0x20_0000_0000_0000)
            by (nonlinear_arith)
            requires
                count <= 0x8000_0000_0000_0000,
                parts.factor <= 0x20_0000_0000_0000,
        ;
    }
    let product: u128 = count * parts.factor;
    let rounded: u128 = round_to_double(product);
    let divisor: u128 = power_of_two(digits - parts.bits);
    proof {
        lemma_pow2_pos((digits - parts.bits) as nat);
        lemma_pow2_pos(parts.bits as nat);
        lemma_pow2_adds((digits - parts.bits) as nat, parts.bits as nat);
        nearest_double_scales(product as nat, parts.bits as nat);
        assert(count * (parts.factor * parts.unit) == product * parts.unit) by (nonlinear_arith)
            requires
                product == count * parts.factor,
        ;
        lemma_div_multiples_vanish_quotient(parts.unit as int, rounded as int, divisor as int);
        lemma_mul_is_commutative(parts.unit as int, rounded as int);
        lemma_mul_is_commutative(parts.unit as int, divisor as int);
    }
    rounded / divisor
}

proof fn scale_covers_excess(x: nat, k: nat)
    requires
        x <= 2 * pow2(k),
    ensures
        crate::share::excess_bits(x) <= k,
{
    let bits = crate::share::excess_bits(x);
    crate::share::excess_bounds(x);
    lemma_pow2_pos(k);
    if bits > k {
        lemma_pow2_strictly_increases(k, bits);
    }
}

/// The number of rows that are kept when a ratio of the data, a double with the bits
/// `ratio_bits`, is held back.
pub fn validation_row(rows: usize, ratio_bits: u64) -> (row: Option<usize>)
    requires
        rows <= i64::MAX,
    ensures
        match row {
            Some(row) => rows_kept(rows as nat, ratio_bits) == Some(row as nat),
            None => rows_kept(rows as nat, ratio_bits) is None,
        },
        row matches Some(row) ==> row <= rows,
        ({
            let positive = (ratio_bits % 0x8000_0000_0000_0000) as u64;
            let one = pow2(crate::double::scale(positive));
            let part = crate::double::numerator(positive);
            let rest = if ratio_bits >= 0x8000_0000_0000_0000 {
                one + part
            } else {
                (one - part) as nat
            };
            let share = crate::share::nearest_double(
                crate::share::nearest_double(rows as nat) * crate::share::nearest_double(rest),
            ) / one;
            if positive <= 0x3ff0_0000_0000_0000 {
                &&& row is Some <==> share <= rows
                &&& row is Some ==> row->0 == share
            } else if ratio_bits >= 0x8000_0000_0000_0000 && positive <= 0x7ff0_0000_0000_0000 {
                row == if rows == 0 {
                    Some(0usize)
                } else {
                    None
                }
            } else {
                row == Some(0usize)
            }
        }),
{
    let bits: u64 = ratio_bits % SIGN_BIT;
    if bits <= ONE_BITS {
        let share: u128 = kept_share(rows, ratio_bits);
        if share <= rows as u128 {
            Some(share as usize)
        } else {
            None
        }
    } else if ratio_bits >= SIGN_BIT && bits <= INFINITY_BITS && rows > 0 {
        None
    } else {
        Some(0)
    }
}

/// A ratio from 0 to 1 holds back part of the data: the rows that are kept are rows
/// of the data. Beyond the 53 binary digits of a double, the number of rows can
/// itself be rounded up.
pub proof fn ratio_keeps_part(rows: nat, ratio_bits: u64)
    requires
        ratio_bits <= ONE_BITS,
        rows <= DOUBLE_LIMIT,
    ensures
        rows_kept(rows, ratio_bits) == Some(share_kept(rows, ratio_bits)),
        share_kept(rows, ratio_bits) <= rows,
{
    let k = crate::double::scale(ratio_bits);
    let one = pow2(k);
    let kept = crate::share::nearest_double(remainder(ratio_bits));
    lemma2_to64();
    lemma_pow2_pos(k);
    is_double(rows, 0);
    is_double(1, k);
    parts_of_double(ratio_bits);
    crate::share::nearest_double_ordered(remainder(ratio_bits), one);
    lemma_mul_inequality(kept as int, one as int, rows as int);
    lemma_mul_is_commutative(rows as int, kept as int);
    lemma_mul_is_commutative(rows as int, one as int);
    crate::share::nearest_double_ordered(rows * kept, rows * one);
    is_double(rows, k);
    lemma_div_is_ordered(
        crate::share::nearest_double(rows * kept) as int,
        (rows * one) as int,
        one as int,
    );
    lemma_div_by_multiple(rows as int, one as int);
}

/// Of more rows no fewer are kept.
pub proof fn more_rows_keep_more(fewer: nat, more: nat, ratio_bits: u64)
    requires
        crate::double::magnitude(ratio_bits) <= ONE_BITS,
        fewer <= more,
    ensures
        share_kept(fewer, ratio_bits) <= share_kept(more, ratio_bits),
{
    let one = pow2(crate::double::scale(crate::double::magnitude(ratio_bits)));
    let kept = crate::share::nearest_double(remainder(ratio_bits));
    let few = crate::share::nearest_double(fewer);
    let many = crate::share::nearest_double(more);
    lemma_pow2_pos(crate::double::scale(crate::double::magnitude(ratio_bits)));
    crate::share::nearest_double_ordered(fewer, more);
    lemma_mul_inequality(few as int, many as int, kept as int);
    crate::share::nearest_double_ordered(few * kept, many * kept);
    lemma_div_is_ordered(
        crate::share::nearest_double(few * kept) as int,
        crate::share::nearest_double(many * kept) as int,
        one as int,
    );
}

/// The larger the ratio that is held back, the fewer rows are kept.
pub proof fn larger_ratio_keeps_less(rows: nat, smaller_bits: u64, larger_bits: u64)
    requires
        smaller_bits <= larger_bits <= ONE_BITS,
    ensures
        share_kept(rows, larger_bits) <= share_kept(rows, smaller_bits),
{
    let count = crate::share::nearest_double(rows);
    let fine = crate::double::scale(smaller_bits);
    let coarse = crate::double::scale(larger_bits);
    let more = remainder(smaller_bits);
    let less = remainder(larger_bits);
    let more_kept = crate::share::nearest_double(more);
    let less_kept = crate::share::nearest_double(less);
    parts_of_double(smaller_bits);
    parts_of_double(larger_bits);
    ratios_ordered(smaller_bits, larger_bits);
    let d = (fine - coarse) as nat;
    let factor = pow2(d);
    lemma_pow2_adds(coarse, d);
    lemma_pow2_pos(d);
    lemma_pow2_pos(coarse);
    lemma_pow2_pos(fine);
    lemma_mul_is_distributive_sub_other_way(
        factor as int,
        pow2(coarse) as int,
        crate::double::numerator(larger_bits) as int,
    );
    assert(less * factor <= more);
    nearest_double_scales(less, d);
    crate::share::nearest_double_ordered(less * factor, more);
    assert(less_kept * factor <= more_kept);
    lemma_mul_inequality((less_kept * factor) as int, more_kept as int, count as int);
    assert((count * less_kept) * factor == (less_kept * factor) * count) by (nonlinear_arith);
    lemma_mul_is_commutative(count as int, more_kept as int);
    let small = crate::share::nearest_double(count * less_kept);
    let large = crate::share::nearest_double(count * more_kept);
    nearest_double_scales(count * less_kept, d);
    crate::share::nearest_double_ordered((count * less_kept) * factor, count * more_kept);
    assert(small * factor <= large);
    lemma_div_is_ordered((small * factor) as int, large as int, pow2(fine) as int);
    lemma_div_multiples_vanish_quotient(factor as int, small as int, pow2(coarse) as int);
    lemma_mul_is_commutative(factor as int, small as int);
    lemma_mul_is_commutative(factor as int, pow2(coarse) as int);
}

/// Doubles without a sign order as their bits do.
proof fn ratios_ordered(smaller_bits: u64, larger_bits: u64)
    requires
        smaller_bits <= larger_bits <= ONE_BITS,
    ensures
        crate::double::scale(larger_bits) <= crate::double::scale(smaller_bits),
        crate::double::numerator(smaller_bits) <= crate::double::numerator(larger_bits) * pow2(
            (crate::double::scale(smaller_bits) - crate::double::scale(larger_bits)) as nat,
        ),
{
    lemma2_to64();
    let d = (crate::double::scale(smaller_bits) - crate::double::scale(larger_bits)) as nat;
    if d == 0 {
        assert(crate::double::numerator(smaller_bits) <= crate::double::numerator(larger_bits));
    } else {
        lemma_pow2_unfold(d);
        lemma_pow2_pos((d - 1) as nat);
        let larger = crate::double::numerator(larger_bits);
        assert(larger * pow2(d) >= 2 * FRACTIONS) by (nonlinear_arith)
            requires
                larger >= FRACTIONS,
                pow2(d) >= 2,
        ;
    }
}

/// If nothing is held back, all rows are kept; if all is held back, none.
pub proof fn extreme_ratios(rows: nat)
    requires
        rows <= DOUBLE_LIMIT,
    ensures
        rows_kept(rows, 0) == Some(rows),
        rows_kept(rows, ONE_BITS) == Some(0nat),
{
    lemma2_to64();
    lemma2_to64_rest();
    let one = pow2(1074);
    lemma_pow2_pos(1074);
    is_double(rows, 0);
    is_double(1, 1074);
    is_double(rows, 1074);
    lemma_div_by_multiple(rows as int, one as int);
    assert(remainder(ONE_BITS) == 0);
    is_double(0, 0);
    assert(rows * 0 == 0);
    assert(share_kept(rows, ONE_BITS) == 0);
}

/// What is kept is the share of the rows that the ratio leaves: for a ratio of
/// `part / one` from 0 to 1, and up to 2^50 rows, it is the whole part of
/// `rows * (one - part) / one`, or of a number that differs from that by no more
/// than half a row.
pub proof fn kept_rows_follow_the_ratio(rows: nat, ratio_bits: u64)
    requires
        ratio_bits <= 0x3ff0_0000_0000_0000,
        rows <= 0x4_0000_0000_0000,
    ensures
        ({
            let one = pow2(crate::double::scale(ratio_bits));
            let part = crate::double::numerator(ratio_bits);
            let exact = rows * (one - part);
            &&& part <= one
            &&& rows_kept(rows, ratio_bits) matches Some(kept) && 2 * (kept * one) <= 2 * exact
                + one && 2 * exact <= 2 * ((kept + 1) * one) + one
        }),
{
    let k = crate::double::scale(ratio_bits);
    let one = pow2(k);
    let part = crate::double::numerator(ratio_bits);
    parts_of_double(ratio_bits);
    ratio_keeps_part(rows, ratio_bits);
    lemma2_to64();
    lemma_pow2_pos(k);
    is_double(rows, 0);
    assert(rows * pow2(0) == rows);
    let rest = remainder(ratio_bits);
    assert(rest == one - part);
    let rounded = crate::share::nearest_double(rest);
    let product = crate::share::nearest_double(rows * rounded);
    let kept = share_kept(rows, ratio_bits);
    crate::share::double_error(rest);
    crate::share::double_error(rows * rounded);
    assert(kept == product / one);
    lemma_fundamental_div_mod(product as int, one as int);
    lemma_mod_bound(product as int, one as int);
    lemma_mul_is_commutative(one as int, kept as int);
    assert((kept + 1) * one == kept * one + one) by (nonlinear_arith);
    rounding_keeps_near(rows, rest, rounded, product, one);
}

/// Two roundings of a product with no more than 2^50 rows change it by less than
/// half of what one row counts for.
proof fn rounding_keeps_near(rows: nat, rest: nat, rounded: nat, product: nat, one: nat)
    requires
        rows <= 0x4_0000_0000_0000,
        rest <= one,
        rounded * DOUBLE_LIMIT <= rest * (DOUBLE_LIMIT + 1),
        rest * (DOUBLE_LIMIT - 1) <= rounded * DOUBLE_LIMIT,
        product * DOUBLE_LIMIT <= (rows * rounded) * (DOUBLE_LIMIT + 1),
        (rows * rounded) * (DOUBLE_LIMIT - 1) <= product * DOUBLE_LIMIT,
    ensures
        2 * product <= 2 * (rows * rest) + one,
        2 * (rows * rest) <= 2 * product + one,
{
    let limit: int = 9007199254740992;
    let exact = rows * rest;
    let near = rows * rounded;
    // The first rounding changes the product by no more than an eighth.
    assert(rows * (rounded * limit) <= rows * (rest * (limit + 1))) by (nonlinear_arith)
        requires
            rounded * limit <= rest * (limit + 1),
            rows >= 0,
    ;
    assert(rows * (rest * (limit - 1)) <= rows * (rounded * limit)) by (nonlinear_arith)
        requires
            rest * (limit - 1) <= rounded * limit,
            rows >= 0,
    ;
    assert(rows * (rounded * limit) == near * limit) by (nonlinear_arith)
        requires
            near == rows * rounded,
    ;
    assert(rows * (rest * (limit + 1)) == exact * (limit + 1)) by (nonlinear_arith)
        requires
            exact == rows * rest,
    ;
    assert(rows * (rest * (limit - 1)) == exact * (limit - 1)) by (nonlinear_arith)
        requires
            exact == rows * rest,
    ;
    assert(exact <= 0x4_0000_0000_0000 * one) by (nonlinear_arith)
        requires
            exact == rows * rest,
            rows <= 0x4_0000_0000_0000,
            rest <= one,
    ;
    assert(near * limit <= exact * limit + exact);
    assert(exact * limit - exact <= near * limit);
    assert(8 * near <= 8 * exact + one);
    assert(8 * exact <= 8 * near + one);
    // The second one does not change it by more than a quarter.
    assert(product * limit <= near * limit + near && near * limit - near <= product * limit)
        by (nonlinear_arith)
        requires
            product * limit <= near * (limit + 1),
            near * (limit - 1) <= product * limit,
    ;
    assert(near <= 0x8_0000_0000_0000 * one);
    assert(4 * product <= 4 * near + one);
    assert(4 * near <= 4 * product + one);
}

} // verus!
