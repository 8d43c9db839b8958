//! The share of a data set's rows that a model is trained on: four fifths, as
//! double-precision arithmetic computes them.

use vstd::arithmetic::div_mod::*;
use vstd::arithmetic::mul::*;
use vstd::arithmetic::power2::*;
use vstd::prelude::*;

verus! {

/// 2 to the power of 53: the integers below it are doubles.
pub const DOUBLE_LIMIT: u128 = 9007199254740992;

/// The double nearest to 0.8, as a multiple of 1 / 2^53.
pub const FOUR_FIFTHS: u128 = 7205759403792794;

/// The number of low binary digits of `x` that a double has no room for.
pub open spec fn excess_bits(x: nat) -> nat
    decreases x,
{
    if x < DOUBLE_LIMIT {
        0
    } else {
        excess_bits(x / 2) + 1
    }
}

/// The multiple of `unit` that is nearest to `x`; of two that are equally near,
/// the even multiple.
pub open spec fn nearest_multiple(x: nat, unit: nat) -> nat {
    let low = x / unit;
    let rest = x % unit;
    if 2 * rest < unit || (2 * rest == unit && low % 2 == 0) {
        low * unit
    } else {
        (low + 1) * unit
    }
}

/// The double nearest to the integer `x`, ties to even.
pub open spec fn nearest_double(x: nat) -> nat {
    nearest_multiple(x, pow2(excess_bits(x)))
}

/// The whole part of the double-precision product of `rows` and 0.8.
pub open spec fn training_share(rows: nat) -> nat {
    nearest_double(nearest_double(rows) * FOUR_FIFTHS as nat) / DOUBLE_LIMIT as nat
}

/// The double nearest to `x`, as a multiple `factor` of the distance `unit` at which
/// doubles of its size lie, and the binary logarithm `bits` of that distance.
pub(crate) struct Rounded {
    pub factor: u128,
    pub unit: u128,
    pub bits: u64,
}

/// Rounds to the nearest double.
pub(crate) fn round_parts(x: u128) -> (rounded: Rounded)
    requires
        x < 0x40_0000_0000_0000_0000_0000_0000_0000,
    ensures
        rounded.bits == excess_bits(x as nat),
        rounded.unit == pow2(rounded.bits as nat),
        rounded.factor * rounded.unit == nearest_double(x as nat),
        rounded.factor <= DOUBLE_LIMIT,
        rounded.factor * rounded.unit <= x + rounded.unit,
        rounded.unit <= 0x8000_0000_0000_0000_0000,
{
    let mut unit: u128 = 1;
    let mut bits: u64 = 0;
    proof {
        lemma2_to64();
    }
    while x / unit >= DOUBLE_LIMIT
        invariant
            x < 0x40_0000_0000_0000_0000_0000_0000_0000,
            unit == pow2(bits as nat),
            unit >= 1,
            unit <= 0x8000_0000_0000_0000_0000,
            bits <= 79,
            excess_bits(x as nat) == bits + excess_bits(x as nat / pow2(bits as nat)),
        decreases x / unit,
    {
        proof {
            assert(unit * DOUBLE_LIMIT <= x) by (nonlinear_arith)
                requires
                    x / unit >= DOUBLE_LIMIT,
                    unit >= 1,
            ;
            lemma_pow2_unfold((bits + 1) as nat);
            lemma_div_denominator(x as int, unit as int, 2);
            assert(x / unit / 2 == x / ((unit * 2) as u128));
            lemma2_to64();
            lemma_pow2_adds(64, 15);
        }
        unit = unit * 2;
        bits = bits + 1;
    }
    let low: u128 = x / unit;
    let rest: u128 = x % unit;
    proof {
        lemma_fundamental_div_mod(x as int, unit as int);
        assert(low * unit <= x && (low + 1) * unit <= x + unit) by (nonlinear_arith)
            requires
                x == unit * low + rest,
                rest >= 0,
        ;
        assert(excess_bits(x as nat / pow2(bits as nat)) == 0);
    }
    let factor: u128 = if 2 * rest < unit || (2 * rest == unit && low % 2 == 0) {
        low
    } else {
        low + 1
    };
    Rounded { factor, unit, bits }
}

pub(crate) fn round_to_double(x: u128) -> (rounded: u128)
    requires
        x < 0x40_0000_0000_0000_0000_0000_0000_0000,
    ensures
        rounded == nearest_double(x as nat),
{
    let parts = round_parts(x);
    parts.factor * parts.unit
}

/// The whole part of the double-precision product of `rows` and 0.8.
pub fn training_rows(rows: usize) -> (share: usize)
    requires
        rows <= i64::MAX,
    ensures
        share == training_share(rows as nat),
        share <= rows,
        share == nearest_double(nearest_double(rows as nat) * 7205759403792794)
            / 9007199254740992,
        rows <= 0x4_0000_0000_0000 ==> 5 * share <= 4 * rows < 5 * (share + 1),
{
    let count: u128 = round_to_double(rows as u128);
    proof {
        training_share_bound(rows as nat);
        double_error(rows as nat);
        if rows <= 0x4_0000_0000_0000 {
            training_share_is_four_fifths(rows as nat);
        }
        assert(count * FOUR_FIFTHS < 0x40_0000_0000_0000_0000_0000_0000_0000) by (nonlinear_arith)
            requires
                count * 9007199254740992 <= rows * 9007199254740993,
                rows <= 0x7fff_ffff_ffff_ffff,
                FOUR_FIFTHS == 7205759403792794,
                count >= 0,
        ;
        assert(count as nat * FOUR_FIFTHS as nat == (count * FOUR_FIFTHS) as nat);
    }
    let product: u128 = round_to_double(count * FOUR_FIFTHS);
    (product / DOUBLE_LIMIT) as usize
}

/// Where doubles are `pow2(excess_bits(x))` apart, `x` lies.
pub(crate) proof fn excess_bounds(x: nat)
    ensures
        x < DOUBLE_LIMIT * pow2(excess_bits(x)),
        excess_bits(x) > 0 ==> 2 * x >= DOUBLE_LIMIT * pow2(excess_bits(x)),
    decreases x,
{
    lemma2_to64();
    if x >= DOUBLE_LIMIT {
        excess_bounds(x / 2);
        lemma_pow2_unfold(excess_bits(x));
        let half = pow2(excess_bits(x / 2));
        assert(DOUBLE_LIMIT * (2 * half) == 2 * (DOUBLE_LIMIT * half)) by (nonlinear_arith);
    }
}

/// A multiple of `unit` that is nearest is no further away than half a unit.
proof fn nearest_multiple_error(x: nat, unit: nat)
    requires
        unit > 0,
    ensures
        2 * nearest_multiple(x, unit) <= 2 * x + unit,
        2 * x <= 2 * nearest_multiple(x, unit) + unit,
        nearest_multiple(x, unit) >= (x / unit) * unit,
{
    lemma_fundamental_div_mod(x as int, unit as int);
    lemma_mod_bound(x as int, unit as int);
    let low = x / unit;
    assert(unit * low == low * unit && (low + 1) * unit == low * unit + unit) by (nonlinear_arith);
}

/// A number differs from its nearest double by no more than a 2^53th of itself.
pub proof fn double_error(x: nat)
    ensures
        nearest_double(x) * DOUBLE_LIMIT <= x * (DOUBLE_LIMIT + 1),
        x * (DOUBLE_LIMIT - 1) <= nearest_double(x) * DOUBLE_LIMIT,
        x < DOUBLE_LIMIT ==> nearest_double(x) == x,
{
    let unit = pow2(excess_bits(x));
    lemma_pow2_pos(excess_bits(x));
    excess_bounds(x);
    nearest_multiple_error(x, unit);
    lemma2_to64();
    if excess_bits(x) == 0 {
        assert(unit == 1);
        assert(nearest_double(x) == x);
    }
}

/// The training share never exceeds the rows that there are: of any data, some is
/// left for testing.
pub proof fn training_share_bound(rows: nat)
    ensures
        training_share(rows) <= rows,
        rows > 0 ==> training_share(rows) < rows,
{
    let count = nearest_double(rows);
    let product = nearest_double(count * FOUR_FIFTHS as nat);
    double_error(rows);
    double_error(count * FOUR_FIFTHS as nat);
    if rows == 0 {
        assert(count * FOUR_FIFTHS as nat == 0);
    } else {
        assert(product < rows * 9007199254740992) by (nonlinear_arith)
            requires
                count * 9007199254740992 <= rows * 9007199254740993,
                product * 9007199254740992 <= (count * 7205759403792794) * 9007199254740993,
                count >= 0,
                rows > 0,
        ;
        assert(product / (DOUBLE_LIMIT as nat) < rows) by (nonlinear_arith)
            requires
                product < rows * 9007199254740992,
                DOUBLE_LIMIT == 9007199254740992,
        ;
    }
}

proof fn nearest_multiple_ordered(x: nat, y: nat, unit: nat)
    requires
        x <= y,
        unit > 0,
    ensures
        nearest_multiple(x, unit) <= nearest_multiple(y, unit),
{
    lemma_fundamental_div_mod(x as int, unit as int);
    lemma_fundamental_div_mod(y as int, unit as int);
    lemma_div_is_ordered(x as int, y as int, unit as int);
    let low = x / unit;
    let high = y / unit;
    assert((low + 1) * unit == low * unit + unit) by (nonlinear_arith);
    assert((high + 1) * unit == high * unit + unit) by (nonlinear_arith);
    if low < high {
        lemma_mul_inequality((low + 1) as int, high as int, unit as int);
    }
}

/// A greater number has no smaller nearest double.
pub proof fn nearest_double_ordered(x: nat, y: nat)
    requires
        x <= y,
    ensures
        nearest_double(x) <= nearest_double(y),
{
    let j = excess_bits(x);
    let k = excess_bits(y);
    excess_ordered(x, y);
    lemma_pow2_pos(j);
    lemma_pow2_pos(k);
    if j == k {
        nearest_multiple_ordered(x, y, pow2(j));
    } else {
        // A double that both numbers' neighbours include lies between them.
        let bound = (DOUBLE_LIMIT * pow2(j)) as nat;
        excess_bounds(x);
        excess_bounds(y);
        lemma_pow2_unfold(k);
        let half = pow2((k - 1) as nat);
        assert(half >= pow2(j)) by {
            if j < k - 1 {
                lemma_pow2_strictly_increases(j, (k - 1) as nat);
            }
        }
        assert(y >= DOUBLE_LIMIT * half);
        nearest_multiple_ordered(x, bound, pow2(j));
        multiple_is_nearest(DOUBLE_LIMIT as nat, pow2(j));
        let middle = (DOUBLE_LIMIT * half) as nat;
        nearest_multiple_ordered(middle, y, pow2(k));
        lemma2_to64_rest();
        assert(middle == 4503599627370496 * pow2(k));
        multiple_is_nearest(4503599627370496, pow2(k));
        assert(bound <= middle);
    }
}

pub(crate) proof fn multiple_is_nearest(factor: nat, unit: nat)
    requires
        unit > 0,
    ensures
        nearest_multiple(factor * unit, unit) == factor * unit,
{
    lemma_div_by_multiple(factor as int, unit as int);
    lemma_mod_multiples_basic(factor as int, unit as int);
}

proof fn excess_ordered(x: nat, y: nat)
    requires
        x <= y,
    ensures
        excess_bits(x) <= excess_bits(y),
    decreases y,
{
    if x >= DOUBLE_LIMIT {
        excess_ordered(x / 2, y / 2);
    }
}

/// More data never means fewer rows to train on.
pub proof fn training_share_ordered(fewer: nat, more: nat)
    requires
        fewer <= more,
    ensures
        training_share(fewer) <= training_share(more),
{
    nearest_double_ordered(fewer, more);
    let a = nearest_double(fewer);
    let b = nearest_double(more);
    lemma_mul_inequality(a as int, b as int, FOUR_FIFTHS as int);
    nearest_double_ordered(a * FOUR_FIFTHS as nat, b * FOUR_FIFTHS as nat);
    lemma_div_is_ordered(
        nearest_double(a * FOUR_FIFTHS as nat) as int,
        nearest_double(b * FOUR_FIFTHS as nat) as int,
        DOUBLE_LIMIT as int,
    );
}

/// For data sets of up to 2^50 rows the training share is exactly four fifths of
/// the rows, rounded down.
pub proof fn training_share_is_four_fifths(rows: nat)
    requires
        rows <= 1125899906842624,
    ensures
        training_share(rows) == 4 * rows / 5,
{
    double_error(rows);
    let exact = rows * FOUR_FIFTHS as nat;
    let k = excess_bits(exact);
    let unit = pow2(k);
    let product = nearest_double(exact);
    lemma_pow2_pos(k);
    excess_bounds(exact);
    nearest_multiple_error(exact, unit);
    // Doubles of this size are at most 2^50 apart, so that they include the
    // multiples of 2^53.
    lemma2_to64();
    lemma2_to64_rest();
    if k > 50 {
        if k > 51 {
            lemma_pow2_strictly_increases(51, k);
        }
        assert(unit >= pow2(51));
    }
    lemma_pow2_adds(k, (53 - k) as nat);
    let step = pow2((53 - k) as nat);
    let whole = (4 * rows / 5) as nat;
    assert(4 * rows == 5 * whole + 4 * rows % 5);
    assert(whole * DOUBLE_LIMIT <= exact);
    assert(product >= whole * DOUBLE_LIMIT) by {
        assert((whole * step) * unit == whole * DOUBLE_LIMIT) by (nonlinear_arith)
            requires
                unit * step == DOUBLE_LIMIT,
        ;
        lemma_div_is_ordered((whole * step) * unit as int, exact as int, unit as int);
        lemma_div_by_multiple((whole * step) as int, unit as int);
        lemma_mul_inequality((whole * step) as int, (exact / unit) as int, unit as int);
    }
    assert(unit <= pow2(50)) by {
        if k < 50 {
            lemma_pow2_strictly_increases(k, 50);
        }
    }
    assert(product < (whole + 1) * DOUBLE_LIMIT);
    assert(product / DOUBLE_LIMIT as nat == whole) by (nonlinear_arith)
        requires
            whole * DOUBLE_LIMIT <= product,
            product < (whole + 1) * DOUBLE_LIMIT,
            DOUBLE_LIMIT == 9007199254740992,
    ;
}

/// What rounding to a double does to a number of a certain size: the result is a
/// multiple of the distance `pow2(k)` at which doubles of that size lie, no further
/// away than half of that distance, and of two that are equally near the even multiple.
pub proof fn nearest_double_is_nearest(x: nat, k: nat)
    requires
        x < 9007199254740992 * pow2(k),
        k == 0 || 2 * x >= 9007199254740992 * pow2(k),
    ensures
        nearest_double(x) % pow2(k) == 0,
        2 * nearest_double(x) <= 2 * x + pow2(k),
        2 * x <= 2 * nearest_double(x) + pow2(k),
        2 * (x % pow2(k)) == pow2(k) ==> (nearest_double(x) / pow2(k)) % 2 == 0,
        k == 0 ==> nearest_double(x) == x,
{
    let unit = pow2(k);
    lemma2_to64();
    lemma_pow2_pos(k);
    if k > 0 {
        crate::ratio::excess_is(x, k);
    } else {
        double_error(x);
    }
    assert(excess_bits(x) == k);
    nearest_multiple_error(x, unit);
    let low = x / unit;
    lemma_mod_multiples_basic(low as int, unit as int);
    lemma_mod_multiples_basic((low + 1) as int, unit as int);
    lemma_div_by_multiple(low as int, unit as int);
    lemma_div_by_multiple((low + 1) as int, unit as int);
}

/// Every number has a size for which the distance of the doubles is known.
pub proof fn doubles_have_a_distance(x: nat) -> (k: nat)
    ensures
        x < 9007199254740992 * pow2(k),
        k == 0 || 2 * x >= 9007199254740992 * pow2(k),
{
    excess_bounds(x);
    excess_bits(x)
}

/// Four fifths of the rows are kept for training, whatever their number, up to the
/// error of the two roundings, which is about a 2^52th.
pub proof fn training_share_is_near_four_fifths(rows: nat)
    ensures
        5 * training_share(rows) * 0x10_0000_0000_0000 <= 4 * rows * (0x10_0000_0000_0000 + 2),
        4 * rows * (0x10_0000_0000_0000 - 2) <= 5 * (training_share(rows) + 1)
            * 0x10_0000_0000_0000,
{
    let count = nearest_double(rows);
    let exact = count * FOUR_FIFTHS as nat;
    let product = nearest_double(exact);
    let share = training_share(rows);
    double_error(rows);
    double_error(exact);
    lemma_fundamental_div_mod(product as int, DOUBLE_LIMIT as int);
    lemma_mod_bound(product as int, DOUBLE_LIMIT as int);
    let limit: int = 9007199254740992;
    assert(share * limit <= product < (share + 1) * limit);
    assert(exact == count * 7205759403792794);
    assert(product * limit <= count * 7205759403792794 * (limit + 1));
    assert(product * limit * limit <= rows * (limit + 1) * 7205759403792794 * (limit + 1))
        by (nonlinear_arith)
        requires
            product * limit <= count * 7205759403792794 * (limit + 1),
            count * limit <= rows * (limit + 1),
            limit == 9007199254740992,
    ;
    assert(rows * (limit - 1) * 7205759403792794 * (limit - 1) <= product * limit * limit)
        by (nonlinear_arith)
        requires
            count * 7205759403792794 * (limit - 1) <= product * limit,
            rows * (limit - 1) <= count * limit,
            limit == 9007199254740992,
    ;
    assert(5 * share * 0x10_0000_0000_0000 <= 4 * rows * (0x10_0000_0000_0000 + 2))
        by (nonlinear_arith)
        requires
            share * limit <= product,
            product * limit * limit <= rows * (limit + 1) * 7205759403792794 * (limit + 1),
            limit == 9007199254740992,
            rows >= 0,
    ;
    assert(4 * rows * (0x10_0000_0000_0000 - 2) <= 5 * (share + 1) * 0x10_0000_0000_0000)
        by (nonlinear_arith)
        requires
            product < (share + 1) * limit,
            rows * (limit - 1) * 7205759403792794 * (limit - 1) <= product * limit * limit,
            limit == 9007199254740992,
            rows >= 0,
    ;
}

} // verus!
