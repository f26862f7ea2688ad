//! The coordinate mapper: a pure transform from a continuous pointer position
//! (center-origin, in sub-pixel units) to a snapped grid cell index, with a
//! round-half-up rule and clamping to the grid boundary.

use vstd::prelude::*;
use vstd::arithmetic::div_mod::{
    lemma_fundamental_div_mod, lemma_hoist_over_denominator, lemma_div_multiples_vanish,
    lemma_mod_division_less_than_divisor,
};

verus! {

/// Largest pointer coordinate magnitude the mapper accepts (sub-pixel units).
pub const MAX_COORD: i64 = 0x100_0000_0000;

/// Largest cell size the mapper accepts (sub-pixel units per cell).
pub const MAX_STEP: i64 = 0x10_0000;

/// Largest grid extent (in cells) the mapper accepts on one axis.
pub const MAX_EXTENT: usize = 0x10_0000;

/// Round-half-up of the rational `num / den` (for `den > 0`): the nearest
/// integer, with an exact midpoint always rounded toward the higher integer.
pub open spec fn round_half_up(num: int, den: int) -> int {
    (2 * num + den) / (2 * den)
}

/// Clamp a prospective cell index to the valid range `[0, extent - 1]`.
pub open spec fn clamp_index(v: int, extent: int) -> int {
    if v < 0 {
        0
    } else if v > extent - 1 {
        extent - 1
    } else {
        v
    }
}

/// One axis of the mapper: snap `coord / step` to a cell offset, shift from
/// center-origin to a zero-based index, and clamp to the grid boundary.
pub open spec fn map_axis(coord: int, step: int, extent: int) -> int {
    clamp_index(round_half_up(coord, step) + extent / 2, extent)
}

/// `round_half_up(num, den)` is the unique integer within half a unit of
/// `num / den`, where the upper bound is strict (ties round up).
pub proof fn lemma_round_half_up_characterization(num: int, den: int)
    requires
        den >= 1,
    ensures
        2 * den * round_half_up(num, den) - den <= 2 * num
            < 2 * den * round_half_up(num, den) + den,
{
    let q = round_half_up(num, den);
    let r = (2 * num + den) % (2 * den);
    lemma_fundamental_div_mod(2 * num + den, 2 * den);
    lemma_mod_division_less_than_divisor(2 * num + den, 2 * den);
    assert(2 * num + den == 2 * den * q + r);
}

/// Within the coordinate bounds, the rounded value stays within those bounds.
pub proof fn lemma_round_half_up_range(num: int, den: int, bound: int)
    requires
        den >= 1,
        bound >= 0,
        -bound <= num <= bound,
    ensures
        -bound <= round_half_up(num, den) <= bound,
{
    let q = round_half_up(num, den);
    lemma_round_half_up_characterization(num, den);
    assert(-bound <= q <= bound) by (nonlinear_arith)
        requires
            den >= 1,
            bound >= 0,
            -bound <= num <= bound,
            2 * den * q - den <= 2 * num < 2 * den * q + den,
    {}
}

/// A pointer exactly halfway between two cells always rounds toward the
/// higher cell: if `num / den` is exactly `k + 1/2`, the result is `k + 1`.
pub proof fn lemma_midpoint_rounds_up(num: int, den: int, k: int)
    requires
        den >= 1,
        2 * num == (2 * k + 1) * den,
    ensures
        round_half_up(num, den) == k + 1,
{
    assert(2 * num + den == (2 * den) * (k + 1)) by (nonlinear_arith)
        requires
            2 * num == (2 * k + 1) * den,
    {}
    lemma_div_multiples_vanish(k + 1, 2 * den);
}

/// The mapped index never leaves the grid: `0 <= map_axis < extent`.
pub proof fn lemma_map_axis_in_range(coord: int, step: int, extent: int)
    requires
        extent >= 1,
    ensures
        0 <= map_axis(coord, step, extent) < extent,
{
}

/// A pointer at or beyond the far edge of the board maps to the last cell.
pub proof fn lemma_far_high_pointer_maps_to_edge(coord: int, step: int, extent: int)
    requires
        step >= 1,
        extent >= 1,
        coord >= step * extent,
    ensures
        map_axis(coord, step, extent) == extent - 1,
{
    let q = round_half_up(coord, step);
    lemma_round_half_up_characterization(coord, step);
    assert(q >= extent) by (nonlinear_arith)
        requires
            step >= 1,
            extent >= 1,
            coord >= step * extent,
            2 * coord < 2 * step * q + step,
    {}
}

/// A pointer at or beyond the near edge of the board maps to the first cell.
pub proof fn lemma_far_low_pointer_maps_to_edge(coord: int, step: int, extent: int)
    requires
        step >= 1,
        extent >= 1,
        coord <= -(step * extent),
    ensures
        map_axis(coord, step, extent) == 0,
{
    let q = round_half_up(coord, step);
    lemma_round_half_up_characterization(coord, step);
    assert(q <= -extent) by (nonlinear_arith)
        requires
            step >= 1,
            extent >= 1,
            coord <= -(step * extent),
            2 * step * q - step <= 2 * coord,
    {}
    assert(extent / 2 <= extent - 1);
}

/// The mapper is a pure function of its arguments: identical pointer
/// positions and grid configuration always yield the identical cell.
pub proof fn lemma_mapper_deterministic(
    x1: int, y1: int, x2: int, y2: int, step: int, cells_x: int, cells_y: int,
)
    requires
        x1 == x2,
        y1 == y2,
    ensures
        map_axis(x1, step, cells_x) == map_axis(x2, step, cells_x),
        map_axis(y1, step, cells_y) == map_axis(y2, step, cells_y),
{
}

/// Round-half-up of `num / den`, computed exactly on integers.
pub fn round(num: i64, den: i64) -> (r: i64)
    requires
        1 <= den <= MAX_STEP,
        -MAX_COORD <= num <= MAX_COORD,
    ensures
        r == round_half_up(num as int, den as int),
        -MAX_COORD <= r <= MAX_COORD,
{
    proof {
        lemma_round_half_up_range(num as int, den as int, MAX_COORD as int);
    }
    let shifted: i64 = num + MAX_COORD * den;
    let a: u64 = (2 * shifted + den) as u64;
    let b: u64 = (2 * den) as u64;
    let q: u64 = a / b;
    proof {
        lemma_hoist_over_denominator(2 * num + den, MAX_COORD as int, (2 * den) as nat);
        assert(a == (2 * num + den) + MAX_COORD * (2 * den));
        assert(q == round_half_up(num as int, den as int) + MAX_COORD);
    }
    q as i64 - MAX_COORD
}

/// One axis of the mapper, executing [`map_axis`] exactly.
fn grid_axis(coord: i64, step: i64, extent: usize) -> (i: usize)
    requires
        1 <= step <= MAX_STEP,
        -MAX_COORD <= coord <= MAX_COORD,
        1 <= extent <= MAX_EXTENT,
    ensures
        i == map_axis(coord as int, step as int, extent as int),
        i < extent,
{
    let r = round(coord, step);
    let shifted = r + (extent / 2) as i64;
    if shifted < 0 {
        0
    } else if shifted > (extent - 1) as i64 {
        extent - 1
    } else {
        shifted as usize
    }
}

/// Convert a continuous pointer position (origin at the visual center of the
/// board, sub-pixel units) into the grid cell it paints, snapping each axis
/// with the round-half-up rule and clamping to the grid boundary.
pub fn mouse_to_grid(x: i64, y: i64, step: i64, cells_x: usize, cells_y: usize)
    -> (cell: (usize, usize))
    requires
        1 <= step <= MAX_STEP,
        -MAX_COORD <= x <= MAX_COORD,
        -MAX_COORD <= y <= MAX_COORD,
        1 <= cells_x <= MAX_EXTENT,
        1 <= cells_y <= MAX_EXTENT,
    ensures
        cell.0 == map_axis(x as int, step as int, cells_x as int),
        cell.1 == map_axis(y as int, step as int, cells_y as int),
        cell.0 < cells_x,
        cell.1 < cells_y,
{
    (grid_axis(x, step, cells_x), grid_axis(y, step, cells_y))
}

} // verus!
