//! Grid coordinates and the four axis-aligned step directions.
//!
//! The play field is a plane of integer cells seen from above; the left input
//! key maps to the delta `(+1, 0)` in this screen-space convention, right to
//! `(-1, 0)`, up to `(0, +1)` and down to `(0, -1)`.

use vstd::prelude::*;

verus! {

/// An integer 2-vector: a grid cell, or a step delta between cells.
#[derive(Clone, Copy, Debug, PartialEq, Eq, Structural)]
pub struct GridVec {
    pub x: i32,
    pub y: i32,
}

/// A segment's current grid cell and the cell it held before its most
/// recent discrete step.
#[derive(Clone, Copy, Debug, PartialEq, Eq, Structural)]
pub struct Position {
    pub position: GridVec,
    pub prev_position: GridVec,
}

pub open spec fn zero_vec() -> GridVec {
    GridVec { x: 0, y: 0 }
}

pub open spec fn dir_left() -> GridVec {
    GridVec { x: 1, y: 0 }
}

pub open spec fn dir_right() -> GridVec {
    GridVec { x: -1i32, y: 0 }
}

pub open spec fn dir_up() -> GridVec {
    GridVec { x: 0, y: 1 }
}

pub open spec fn dir_down() -> GridVec {
    GridVec { x: 0, y: -1i32 }
}

/// Whether `d` is one of the four unit step deltas.
pub open spec fn is_unit_dir(d: GridVec) -> bool {
    d == dir_left() || d == dir_right() || d == dir_up() || d == dir_down()
}

/// A direction intent: no intent (the zero vector) or a unit step delta.
pub open spec fn is_dir_intent(d: GridVec) -> bool {
    d == zero_vec() || is_unit_dir(d)
}

/// Whether the cell one step of `d` away from `v` still fits the coordinate type.
pub open spec fn step_fits(v: GridVec, d: GridVec) -> bool {
    &&& i32::MIN <= v.x + d.x <= i32::MAX
    &&& i32::MIN <= v.y + d.y <= i32::MAX
}

impl GridVec {
    pub fn new(x: i32, y: i32) -> (r: GridVec)
        ensures
            r == (GridVec { x, y }),
    {
        GridVec { x, y }
    }
}

} // verus!
