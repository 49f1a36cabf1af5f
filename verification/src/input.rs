//! Direction intent: latching the held movement keys into the head's step
//! delta for the next tick, with an anti-reversal rule.
//!
//! A candidate delta is rejected when the segment's last step came from the
//! very cell the delta points back into, i.e. when `position - prev_position`
//! equals the opposite of the candidate. A freshly spawned head, whose two
//! cells coincide, rejects nothing. When several keys are held at once they
//! are applied in the fixed order left, right, up, down, and the last one
//! that passes the anti-reversal check wins.

use vstd::prelude::*;

use crate::grid::GridVec;
use crate::grid::Position;
use crate::grid::dir_down;
use crate::grid::dir_left;
use crate::grid::dir_right;
use crate::grid::dir_up;

verus! {

/// A per-frame snapshot of which movement keys are currently held.
#[derive(Clone, Copy, Debug, PartialEq, Eq, Structural)]
pub struct InputSnapshot {
    pub left: bool,
    pub right: bool,
    pub up: bool,
    pub down: bool,
}

/// Whether taking the step `d` would reverse straight back into the cell the
/// segment just came from: `position - prev_position` is the opposite of `d`.
pub open spec fn reversal_blocked(p: Position, d: GridVec) -> bool {
    &&& p.position.x - p.prev_position.x == -(d.x as int)
    &&& p.position.y - p.prev_position.y == -(d.y as int)
}

/// The direction the head holds after one frame of input: each held key is
/// applied in the order left, right, up, down, and each overwrites the
/// current intent only when its delta passes the anti-reversal check.
pub open spec fn latch_spec(input: InputSnapshot, p: Position, current: GridVec) -> GridVec {
    let d1 = if input.left && !reversal_blocked(p, dir_left()) {
        dir_left()
    } else {
        current
    };
    let d2 = if input.right && !reversal_blocked(p, dir_right()) {
        dir_right()
    } else {
        d1
    };
    let d3 = if input.up && !reversal_blocked(p, dir_up()) {
        dir_up()
    } else {
        d2
    };
    if input.down && !reversal_blocked(p, dir_down()) {
        dir_down()
    } else {
        d3
    }
}

/// Whether taking the step `d` from `p` would reverse into the previous cell.
fn blocked(p: &Position, d: GridVec) -> (r: bool)
    ensures
        r == reversal_blocked(*p, d),
{
    let dx: i64 = p.position.x as i64 - p.prev_position.x as i64;
    let dy: i64 = p.position.y as i64 - p.prev_position.y as i64;
    dx == -(d.x as i64) && dy == -(d.y as i64)
}

/// Latches the held movement keys into a new direction intent for the head.
/// Keys are applied in the fixed order left, right, up, down; a key whose
/// delta would reverse into the previous cell leaves the intent unchanged.
pub fn latch_direction(input: InputSnapshot, p: &Position, current: GridVec) -> (d: GridVec)
    ensures
        d == latch_spec(input, *p, current),
{
    let mut d = current;
    if input.left && !blocked(p, GridVec { x: 1, y: 0 }) {
        d = GridVec { x: 1, y: 0 };
    }
    if input.right && !blocked(p, GridVec { x: -1, y: 0 }) {
        d = GridVec { x: -1, y: 0 };
    }
    if input.up && !blocked(p, GridVec { x: 0, y: 1 }) {
        d = GridVec { x: 0, y: 1 };
    }
    if input.down && !blocked(p, GridVec { x: 0, y: -1 }) {
        d = GridVec { x: 0, y: -1 };
    }
    d
}

/// Anti-reversal, stated on its own: a segment whose last step was `(1, 0)`
/// keeps its intent when only the opposite delta `(-1, 0)` is requested, and
/// takes `(0, 1)` when only that is requested.
pub proof fn lemma_anti_reversal(p: Position, current: GridVec)
    requires
        p.position.x - p.prev_position.x == 1,
        p.position.y - p.prev_position.y == 0,
    ensures
        latch_spec(InputSnapshot { left: false, right: true, up: false, down: false }, p, current)
            == current,
        latch_spec(InputSnapshot { left: false, right: false, up: true, down: false }, p, current)
            == dir_up(),
{
}

} // verus!
