//! Fixed-point scalar arithmetic.
//!
//! All coordinates and slider values in the toolkit are `i64` counts of a
//! unit worth 1/10000 of the host coordinate space, so that the widget
//! logic is exact integer arithmetic. This module holds the constants of
//! that convention and the rounding operations the sliders use, together
//! with the lemmas the slider contracts rest on.

use vstd::prelude::*;

verus! {

use vstd::arithmetic::div_mod::lemma_div_by_multiple;
use vstd::arithmetic::div_mod::lemma_div_is_ordered;
use vstd::arithmetic::div_mod::lemma_div_pos_is_pos;
use vstd::arithmetic::div_mod::lemma_fundamental_div_mod;
use vstd::arithmetic::div_mod::lemma_fundamental_div_mod_converse_div;
use vstd::arithmetic::div_mod::lemma_mod_multiples_basic;
use vstd::arithmetic::mul::lemma_mul_inequality;
use vstd::arithmetic::mul::lemma_mul_is_associative;
use vstd::arithmetic::mul::lemma_mul_nonnegative;
use vstd::arithmetic::mul::lemma_mul_unary_negation;

/// Number of fixed-point units in 1.0 of the host coordinate space.
pub const COORD_ONE: i64 = 10_000;

/// Number of fixed-point units in 0.01. Slider values are rounded to a
/// whole multiple of this before they are quantized to the step size.
pub const CENTI: i64 = 100;

/// Magnitude bound on the slider range parameters (minimum, maximum and
/// step size): generous enough for any practical value scale, and small
/// enough that every intermediate product of the value computation fits
/// comfortably in the machine integers.
pub const VALUE_LIMIT: i64 = 0x100_0000_0000;

/// The nearest integer to a / b for b > 0, halves rounded away from zero.
pub open spec fn round_half_away(a: int, b: int) -> int
    recommends
        b > 0,
{
    if a >= 0 {
        (a + b / 2) / b
    } else {
        -((-a + b / 2) / b)
    }
}

/// a rounded to the nearest multiple of b for b > 0, halves away from zero.
pub open spec fn round_to_multiple(a: int, b: int) -> int
    recommends
        b > 0,
{
    round_half_away(a, b) * b
}

/// An unbounded integer saturated into the `i64` range.
pub open spec fn sat64(v: int) -> int {
    if v < i64::MIN {
        i64::MIN as int
    } else if v > i64::MAX {
        i64::MAX as int
    } else {
        v
    }
}

/// Rounding a non-negative value: the quotient is non-negative and the
/// rounded value stays within one divisor of the input.
proof fn lemma_round_nonneg_bounds(a: int, b: int)
    requires
        0 <= a,
        0 < b,
    ensures
        0 <= (a + b / 2) / b * b <= a + b / 2,
        a - b <= (a + b / 2) / b * b,
{
    lemma_div_pos_is_pos(a + b / 2, b);
    lemma_mul_nonnegative((a + b / 2) / b, b);
    lemma_fundamental_div_mod(a + b / 2, b);
}

/// Exact multiples are left unchanged by rounding to a multiple.
pub proof fn lemma_round_multiple_exact(a: int, b: int)
    requires
        0 < b,
        a % b == 0,
    ensures
        round_to_multiple(a, b) == a,
{
    lemma_fundamental_div_mod(a, b);
    let k = a / b;
    assert(a == k * b) by {
        vstd::arithmetic::mul::lemma_mul_is_commutative(b, k);
    }
    assert(0 <= b / 2 < b) by {
        lemma_div_pos_is_pos(b, 2);
        lemma_fundamental_div_mod(b, 2);
    }
    if a >= 0 {
        lemma_fundamental_div_mod_converse_div(a + b / 2, b, k, b / 2);
        assert(round_half_away(a, b) == k);
    } else {
        assert(-a == (-k) * b) by {
            lemma_mul_unary_negation(k, b);
        }
        lemma_fundamental_div_mod_converse_div(-a + b / 2, b, -k, b / 2);
        assert(round_half_away(a, b) == k);
    }
}

/// Rounding to a multiple is monotone in the value being rounded.
pub proof fn lemma_round_monotone(a1: int, a2: int, b: int)
    requires
        0 < b,
        a1 <= a2,
    ensures
        round_to_multiple(a1, b) <= round_to_multiple(a2, b),
{
    if 0 <= a1 {
        lemma_div_is_ordered(a1 + b / 2, a2 + b / 2, b);
        lemma_mul_inequality(round_half_away(a1, b), round_half_away(a2, b), b);
    } else if a2 < 0 {
        let q1 = (-a1 + b / 2) / b;
        let q2 = (-a2 + b / 2) / b;
        lemma_div_is_ordered(-a2 + b / 2, -a1 + b / 2, b);
        lemma_mul_inequality(q2, q1, b);
        lemma_mul_unary_negation(q1, b);
        lemma_mul_unary_negation(q2, b);
    } else {
        // a1 < 0 <= a2: the two sides straddle zero.
        let q1 = (-a1 + b / 2) / b;
        lemma_div_pos_is_pos(-a1 + b / 2, b);
        lemma_mul_nonnegative(q1, b);
        lemma_mul_unary_negation(q1, b);
        lemma_div_pos_is_pos(a2 + b / 2, b);
        lemma_mul_nonnegative((a2 + b / 2) / b, b);
    }
}

/// The rounded value is a multiple of the divisor.
pub proof fn lemma_round_is_multiple(a: int, b: int)
    requires
        0 < b,
    ensures
        round_to_multiple(a, b) % b == 0,
{
    lemma_mod_multiples_basic(round_half_away(a, b), b);
}

/// Rounding a value lying between two exact multiples keeps it between
/// them, and yields a multiple of the divisor.
pub proof fn lemma_round_in_range(v: int, lo: int, hi: int, b: int)
    requires
        0 < b,
        lo <= v <= hi,
        lo % b == 0,
        hi % b == 0,
    ensures
        lo <= round_to_multiple(v, b) <= hi,
        round_to_multiple(v, b) % b == 0,
{
    lemma_round_multiple_exact(lo, b);
    lemma_round_multiple_exact(hi, b);
    lemma_round_monotone(lo, v, b);
    lemma_round_monotone(v, hi, b);
    lemma_round_is_multiple(v, b);
}

/// The proportional part of a range: with 0 < local < total the scaled
/// quotient local * range / total stays within [0, range].
pub proof fn lemma_frac_in_range(local: int, total: int, range: int)
    requires
        0 < local < total,
        0 <= range,
    ensures
        0 <= local * range / total <= range,
{
    lemma_mul_nonnegative(local, range);
    lemma_div_pos_is_pos(local * range, total);
    lemma_mul_inequality(local, total, range);
    lemma_div_is_ordered(local * range, total * range, total);
    assert(total * range == range * total) by {
        vstd::arithmetic::mul::lemma_mul_is_commutative(total, range);
    }
    lemma_div_by_multiple(range, total);
}

/// Divisibility is transitive: a multiple of b is a multiple of every
/// divisor of b.
pub proof fn lemma_divisible_transitive(a: int, b: int, c: int)
    requires
        0 < b,
        0 < c,
        a % b == 0,
        b % c == 0,
    ensures
        a % c == 0,
{
    lemma_fundamental_div_mod(a, b);
    lemma_fundamental_div_mod(b, c);
    let p = a / b;
    let q = b / c;
    assert(a == b * p);
    assert(b == c * q);
    assert(a == (c * q) * p);
    assert((c * q) * p == (q * p) * c) by {
        lemma_mul_is_associative(c, q, p);
        vstd::arithmetic::mul::lemma_mul_is_commutative(c, q * p);
        lemma_mul_is_associative(q, p, c);
        vstd::arithmetic::mul::lemma_mul_is_commutative(q, p);
    }
    lemma_mod_multiples_basic(q * p, c);
}

/// base + to - from, saturated into the `i64` range. Used to displace a
/// coordinate by a pointer movement.
pub fn sat_add_delta(base: i64, to: i64, from: i64) -> (r: i64)
    ensures
        r as int == sat64(base + to - from),
{
    let sum: i128 = base as i128 + to as i128 - from as i128;
    if sum < i64::MIN as i128 {
        i64::MIN
    } else if sum > i64::MAX as i128 {
        i64::MAX
    } else {
        sum as i64
    }
}

/// The exact product of two machine words, formed in a wider type.
pub fn mul_i64(a: i64, b: i64) -> (r: i128)
    ensures
        r == (a as int) * (b as int),
{
    proof {
        assert(-0x4000_0000_0000_0000_0000_0000_0000_0000 <= (a as int) * (b as int)
            <= 0x4000_0000_0000_0000_0000_0000_0000_0000) by (nonlinear_arith)
            requires
                -0x8000_0000_0000_0000 <= a <= 0x7fff_ffff_ffff_ffff,
                -0x8000_0000_0000_0000 <= b <= 0x7fff_ffff_ffff_ffff,
        ;
    }
    (a as i128) * (b as i128)
}

/// a rounded to the nearest multiple of b, halves away from zero.
pub fn round_to_multiple_i64(a: i64, b: i64) -> (r: i64)
    requires
        0 < b <= VALUE_LIMIT,
        -2 * VALUE_LIMIT <= a <= 2 * VALUE_LIMIT,
    ensures
        r == round_to_multiple(a as int, b as int),
        a - b <= r <= a + b,
{
    if a >= 0 {
        let q = (a + b / 2) / b;
        proof {
            lemma_round_nonneg_bounds(a as int, b as int);
        }
        q * b
    } else {
        let q = (-a + b / 2) / b;
        proof {
            lemma_round_nonneg_bounds(-a as int, b as int);
            lemma_mul_unary_negation(q as int, b as int);
        }
        -(q * b)
    }
}

} // verus!
