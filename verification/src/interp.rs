//! The visual interpolator: fixed-point easing of a rendered position
//! toward its segment's discrete grid cell.
//!
//! Rendered coordinates are kept in thousandths of a cell. Every frame each
//! one moves toward its target by `distance * rate * elapsed_ms / 1000`,
//! an exponential approach that never overshoots; a fraction that truncates
//! to nothing still moves one thousandth, so the distance to a constant
//! target strictly shrinks until it reaches zero. A rate-times-elapsed
//! product of a whole second or more snaps to the target outright.

use vstd::prelude::*;

use crate::grid::GridVec;

verus! {

/// Thousandths of a cell per grid cell.
pub const MILLI_PER_CELL: i64 = 1000;

/// The divisor turning `rate * elapsed_ms` into a fraction of the distance.
pub const RATE_SCALE: u64 = 1000;

/// Rendered coordinates stay within this bound; it comfortably covers every
/// grid cell scaled to thousandths.
pub const RENDER_LIMIT: i64 = 0x4000_0000_0000;

/// Interpolation speed, in approximate fractions of the remaining distance
/// per second.
#[derive(Clone, Copy, Debug, PartialEq, Eq, Structural)]
pub struct LerpRate {
    pub rate: u32,
}

/// The interpolation speed used when nothing retunes it.
pub const DEFAULT_LERP_RATE: u32 = 5;

/// A segment's rendered planar position, in thousandths of a cell.
#[derive(Clone, Copy, Debug, PartialEq, Eq, Structural)]
pub struct RenderPos {
    pub x: i64,
    pub y: i64,
}

/// Whether a rendered coordinate lies within the working range.
pub open spec fn coord_in_range(c: int) -> bool {
    -RENDER_LIMIT <= c <= RENDER_LIMIT
}

/// Whether both rendered coordinates lie within the working range.
pub open spec fn render_in_range(p: RenderPos) -> bool {
    coord_in_range(p.x as int) && coord_in_range(p.y as int)
}

/// How far one frame moves a coordinate toward its target: the fraction
/// `num / 1000` of the remaining distance, rounded down, but at least one
/// thousandth while any distance remains, and the whole distance once the
/// fraction reaches one.
pub open spec fn step_amount_spec(dist: int, num: int) -> int {
    if num >= RATE_SCALE {
        dist
    } else if dist == 0 {
        0
    } else if dist * num / (RATE_SCALE as int) == 0 {
        1
    } else {
        dist * num / (RATE_SCALE as int)
    }
}

/// One frame of easing on a single coordinate: `current` moves toward
/// `target` by the step amount for `num == rate * elapsed_ms`.
pub open spec fn approach_spec(current: int, target: int, num: int) -> int {
    if current <= target {
        current + step_amount_spec(target - current, num)
    } else {
        current - step_amount_spec(current - target, num)
    }
}

/// The rendered coordinate a grid coordinate maps to.
pub open spec fn milli_of(cell: i32) -> int {
    cell * MILLI_PER_CELL
}

/// The step amount never exceeds the remaining distance, and is positive
/// while any distance remains.
proof fn lemma_step_amount_bounds(dist: int, num: int)
    requires
        dist >= 0,
        num >= 0,
    ensures
        0 <= step_amount_spec(dist, num) <= dist,
        dist > 0 ==> step_amount_spec(dist, num) >= 1,
{
    if num < RATE_SCALE && dist > 0 && dist * num / (RATE_SCALE as int) != 0 {
        assert(dist * num >= 0) by (nonlinear_arith)
            requires
                dist >= 0,
                num >= 0,
        ;
        assert(dist * num <= dist * 1000) by (nonlinear_arith)
            requires
                dist >= 0,
                num <= 1000,
        ;
        vstd::arithmetic::div_mod::lemma_div_is_ordered(dist * num, dist * 1000, 1000);
        vstd::arithmetic::div_mod::lemma_div_by_multiple(dist, 1000);
        vstd::arithmetic::div_mod::lemma_div_pos_is_pos(dist * num, 1000);
    }
}

/// Interpolation is asymptotically stable: easing a coordinate toward a
/// constant target never overshoots it, and while a distance remains every
/// frame strictly shrinks it.
pub proof fn lemma_interpolation_stable(current: int, target: int, num: int)
    requires
        num >= 0,
    ensures
        current == target ==> approach_spec(current, target, num) == target,
        current < target ==> current < approach_spec(current, target, num) <= target,
        current > target ==> target <= approach_spec(current, target, num) < current,
{
    if current <= target {
        lemma_step_amount_bounds(target - current, num);
    } else {
        lemma_step_amount_bounds(current - target, num);
    }
}

/// One frame of easing on a single coordinate.
fn approach_axis(current: i64, target: i64, num: u64) -> (r: i64)
    requires
        coord_in_range(current as int),
        coord_in_range(target as int),
    ensures
        r == approach_spec(current as int, target as int, num as int),
        coord_in_range(r as int),
{
    proof {
        if current <= target {
            lemma_step_amount_bounds(target - current, num as int);
        } else {
            lemma_step_amount_bounds(current - target, num as int);
        }
    }
    if num >= RATE_SCALE {
        return target;
    }
    if current <= target {
        let dist: u64 = (target - current) as u64;
        let moved: u64 = dist * num / RATE_SCALE;
        let m: u64 = if moved == 0 && dist > 0 {
            1
        } else {
            moved
        };
        current + m as i64
    } else {
        let dist: u64 = (current - target) as u64;
        let moved: u64 = dist * num / RATE_SCALE;
        let m: u64 = if moved == 0 && dist > 0 {
            1
        } else {
            moved
        };
        current - m as i64
    }
}

impl RenderPos {
    /// The rendered position sitting exactly on a grid cell.
    pub fn from_cell(cell: GridVec) -> (p: RenderPos)
        ensures
            p.x == milli_of(cell.x),
            p.y == milli_of(cell.y),
            render_in_range(p),
    {
        RenderPos { x: cell.x as i64 * MILLI_PER_CELL, y: cell.y as i64 * MILLI_PER_CELL }
    }

    /// One frame of easing toward the grid cell `target`, on both planar
    /// axes, by the fraction `rate * delta_ms / 1000` of the remaining
    /// distance.
    pub fn interpolate(&mut self, target: GridVec, rate: LerpRate, delta_ms: u32)
        requires
            render_in_range(*old(self)),
        ensures
            final(self).x == approach_spec(
                old(self).x as int,
                milli_of(target.x),
                rate.rate * delta_ms,
            ),
            final(self).y == approach_spec(
                old(self).y as int,
                milli_of(target.y),
                rate.rate * delta_ms,
            ),
            render_in_range(*final(self)),
    {
        proof {
            assert((rate.rate as int) * (delta_ms as int) <= 0xffff_ffff * 0xffff_ffff)
                by (nonlinear_arith)
                requires
                    rate.rate as int <= 0xffff_ffff,
                    delta_ms as int <= 0xffff_ffff,
            ;
        }
        let num: u64 = rate.rate as u64 * delta_ms as u64;
        let goal = RenderPos::from_cell(target);
        self.x = approach_axis(self.x, goal.x, num);
        self.y = approach_axis(self.y, goal.y, num);
    }
}

} // verus!
