//! Geometry primitives: 2D integer vectors, axis-aligned rectangles,
//! and the draw command handed to the renderer.

use crate::Color;
use crate::MAX_COORD;
use vstd::prelude::*;

verus! {

/// Halving that rounds toward zero, as the horizontal centering of the
/// paddle and of the block board does.
pub open spec fn half_toward_zero(v: int) -> int {
    if v >= 0 {
        v / 2
    } else {
        -((-v) / 2)
    }
}

/// Halve a coordinate difference, rounding toward zero.
pub(crate) fn half_tz(v: i64) -> (r: i64)
    requires
        -2 * MAX_COORD <= v <= 2 * MAX_COORD,
    ensures
        r == half_toward_zero(v as int),
{
    if v >= 0 {
        ((v as u64) / 2) as i64
    } else {
        -((((-v) as u64) / 2) as i64)
    }
}

/// A 2D point or direction with integer components (milliunits, or
/// fixed-point velocity units for directions).
#[derive(Clone, Copy, PartialEq, Eq, Structural, Debug)]
pub struct Vec2 {
    pub x: i64,
    pub y: i64,
}

impl Vec2 {
    pub fn new(x: i64, y: i64) -> (v: Vec2)
        ensures
            v == (Vec2 { x, y }),
    {
        Vec2 { x, y }
    }
}

/// An axis-aligned rectangle in playfield coordinates: origin at the top
/// left, `y` growing downward. `x`, `y` locate the top-left corner.
#[derive(Clone, Copy, PartialEq, Eq, Structural, Debug)]
pub struct Rect {
    pub x: i64,
    pub y: i64,
    pub w: i64,
    pub h: i64,
}

impl Rect {
    /// A rectangle is well formed when it has positive extent; degenerate
    /// geometry is rejected at construction.
    pub open spec fn valid(self) -> bool {
        self.w > 0 && self.h > 0
    }

    pub fn new(x: i64, y: i64, w: i64, h: i64) -> (r: Rect)
        requires
            w > 0,
            h > 0,
        ensures
            r == (Rect { x, y, w, h }),
            r.valid(),
    {
        Rect { x, y, w, h }
    }

    /// Two rectangles overlap when their interiors share a point.
    pub open spec fn spec_overlaps(self, other: Rect) -> bool {
        self.x < other.x + other.w && other.x < self.x + self.w && self.y < other.y + other.h
            && other.y < self.y + self.h
    }

    /// Axis-aligned overlap test between two bounds.
    pub fn overlaps(&self, other: &Rect) -> (b: bool)
        requires
            -MAX_GEOM <= self.x && self.x <= MAX_GEOM,
            -MAX_GEOM <= self.y && self.y <= MAX_GEOM,
            0 < self.w <= MAX_GEOM,
            0 < self.h <= MAX_GEOM,
            -MAX_GEOM <= other.x && other.x <= MAX_GEOM,
            -MAX_GEOM <= other.y && other.y <= MAX_GEOM,
            0 < other.w <= MAX_GEOM,
            0 < other.h <= MAX_GEOM,
        ensures
            b == self.spec_overlaps(*other),
    {
        self.x < other.x + other.w && other.x < self.x + self.w && self.y < other.y + other.h
            && other.y < self.y + self.h
    }
}

/// Bound on the coordinates the overlap test accepts, so that the edge
/// sums cannot overflow an `i64`; far wider than any game state reaches.
pub const MAX_GEOM: i64 = 2_000_000_000_000;

/// One filled rectangle for the renderer to draw. A frame's render is the
/// sequence of these commands; equal sequences render identically.
#[derive(Clone, Copy, PartialEq, Eq, Structural, Debug)]
pub struct DrawCmd {
    pub x: i64,
    pub y: i64,
    pub w: i64,
    pub h: i64,
    pub color: Color,
}

} // verus!
