//! Integer points and rectangles on the pixel grid.

use vstd::prelude::*;

verus! {

/// A position on the pixel grid, or an offset between two positions.
#[derive(Clone, Copy, Debug, PartialEq, Eq, Structural)]
pub struct Point {
    pub x: i64,
    pub y: i64,
}

impl Point {
    pub fn new(x: i64, y: i64) -> (p: Point)
        ensures
            p == (Point { x, y }),
    {
        Point { x, y }
    }

    /// The origin of the grid.
    pub fn zero() -> (p: Point)
        ensures
            p == (Point { x: 0, y: 0 }),
    {
        Point { x: 0, y: 0 }
    }
}

/// An axis-aligned rectangle of whole pixels: the half-open span
/// `[x, x + w) x [y, y + h)`.
#[derive(Clone, Copy, Debug, PartialEq, Eq, Structural)]
pub struct Rect {
    pub x: i64,
    pub y: i64,
    pub w: i64,
    pub h: i64,
}

impl Rect {
    pub fn new(x: i64, y: i64, w: i64, h: i64) -> (r: Rect)
        ensures
            r == (Rect { x, y, w, h }),
    {
        Rect { x, y, w, h }
    }

    /// The column just past the right edge.
    pub open spec fn right(self) -> int {
        self.x + self.w
    }

    /// The row just past the bottom edge.
    pub open spec fn bottom(self) -> int {
        self.y + self.h
    }

    /// Whether the pixel `(x, y)` lies in the span of the rectangle.
    pub open spec fn covers(self, x: int, y: int) -> bool {
        self.x <= x < self.right() && self.y <= y < self.bottom()
    }

    /// Whether the whole span lies on a grid of `width` by `height` pixels.
    pub open spec fn within(self, width: int, height: int) -> bool {
        &&& 0 <= self.w
        &&& 0 <= self.h
        &&& 0 <= self.x
        &&& 0 <= self.y
        &&& self.right() <= width
        &&& self.bottom() <= height
    }

    /// Whether no pixel of the span lies on a grid of `width` by `height` pixels.
    pub open spec fn misses(self, width: int, height: int) -> bool {
        ||| self.w <= 0
        ||| self.h <= 0
        ||| self.right() <= 0
        ||| self.bottom() <= 0
        ||| width <= self.x
        ||| height <= self.y
    }
}

} // verus!
