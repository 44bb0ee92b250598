//! The slider track value computation shared by the horizontal and the
//! vertical slider.
//!
//! Given the pointer offset into the track along the drag axis, the
//! value is the proportional point of the [minimum, maximum] range,
//! snapped to a bound when within the configured proximity fraction,
//! rounded to the nearest 0.01, and then quantized to the nearest
//! multiple of the step size — in exactly that order.

use vstd::prelude::*;

use crate::fixed::CENTI;
use crate::fixed::COORD_ONE;
use crate::fixed::VALUE_LIMIT;
use crate::fixed::lemma_divisible_transitive;
use crate::fixed::lemma_frac_in_range;
use crate::fixed::lemma_round_in_range;
use crate::fixed::mul_i64;
use crate::fixed::round_to_multiple;
use crate::fixed::round_to_multiple_i64;

verus! {

/// The value a slider takes when the pointer is pressed `local` units
/// into a track of `total` units along the drag axis.
///
/// The two snap checks are independent and deliberately asymmetric, as a
/// known quirk of the toolkit: the near-maximum test compares against
/// `maximum * (1 - snap)`, not normalized by the range, while the
/// near-minimum test compares against `(maximum - minimum) * snap`.
pub open spec fn track_value(
    minimum: int,
    maximum: int,
    step_size: int,
    snap: int,
    local: int,
    total: int,
) -> int {
    let range = maximum - minimum;
    let raw = minimum + local * range / total;
    let hi = if snap > 0 && raw * COORD_ONE > maximum * (COORD_ONE - snap) {
        maximum
    } else {
        raw
    };
    let snapped = if snap > 0 && hi * COORD_ONE < range * snap {
        minimum
    } else {
        hi
    };
    round_to_multiple(round_to_multiple(snapped, CENTI as int), step_size)
}

/// Executable counterpart of `track_value`; products are formed in a
/// wider integer type.
pub fn compute_track_value(
    minimum: i64,
    maximum: i64,
    step_size: i64,
    snap: i64,
    local: i64,
    total: i64,
) -> (v: i64)
    requires
        0 < step_size <= VALUE_LIMIT,
        -VALUE_LIMIT <= minimum <= maximum <= VALUE_LIMIT,
        0 <= snap <= COORD_ONE,
        0 < local < total,
    ensures
        v == track_value(
            minimum as int,
            maximum as int,
            step_size as int,
            snap as int,
            local as int,
            total as int,
        ),
{
    let range: i64 = maximum - minimum;
    proof {
        lemma_frac_in_range(local as int, total as int, range as int);
    }
    let q: i64 = (mul_i64(local, range) / (total as i128)) as i64;
    let raw: i64 = minimum + q;
    let mut value: i64 = raw;
    if snap > 0 {
        if mul_i64(value, COORD_ONE) > mul_i64(maximum, COORD_ONE - snap) {
            value = maximum;
        }
        if mul_i64(value, COORD_ONE) < mul_i64(range, snap) {
            value = minimum;
        }
    }
    let cents: i64 = round_to_multiple_i64(value, CENTI);
    round_to_multiple_i64(cents, step_size)
}

/// Whenever the range bounds are whole multiples of the step size and
/// the step size is a whole multiple of 0.01, the track value lands
/// inside [minimum, maximum] and on a multiple of the step size.
pub proof fn lemma_track_value_in_range(
    minimum: int,
    maximum: int,
    step_size: int,
    snap: int,
    local: int,
    total: int,
)
    requires
        0 < step_size,
        minimum <= maximum,
        0 < local < total,
        minimum % step_size == 0,
        maximum % step_size == 0,
        step_size % (CENTI as int) == 0,
    ensures
        minimum <= track_value(minimum, maximum, step_size, snap, local, total) <= maximum,
        track_value(minimum, maximum, step_size, snap, local, total) % step_size == 0,
{
    let range = maximum - minimum;
    let raw = minimum + local * range / total;
    lemma_frac_in_range(local, total, range);
    assert(minimum <= raw <= maximum);
    let hi = if snap > 0 && raw * COORD_ONE > maximum * (COORD_ONE - snap) {
        maximum
    } else {
        raw
    };
    let snapped = if snap > 0 && hi * COORD_ONE < range * snap {
        minimum
    } else {
        hi
    };
    assert(minimum <= snapped <= maximum);
    lemma_divisible_transitive(minimum, step_size, CENTI as int);
    lemma_divisible_transitive(maximum, step_size, CENTI as int);
    let cents = round_to_multiple(snapped, CENTI as int);
    lemma_round_in_range(snapped, minimum, maximum, CENTI as int);
    lemma_round_in_range(cents, minimum, maximum, step_size);
}

} // verus!
