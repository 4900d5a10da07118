//! Inks: what a drawing puts on each pixel.
//!
//! An ink is a function from pixel coordinates to `Some(color)` where the
//! drawing paints and `None` where it leaves the canvas alone. Every
//! primitive of the canvas is stated through its ink.

use vstd::prelude::*;
use crate::geometry::{Point, Rect};
use crate::line::{line_coord, line_points, on_line};

verus! {

/// The ink of a single pixel at `(x, y)`.
pub open spec fn dot(x: int, y: int, color: u32) -> spec_fn(int, int) -> Option<u32> {
    |px: int, py: int|
        if px == x && py == y {
            Some(color)
        } else {
            None
        }
}

/// The ink that paints every pixel.
pub open spec fn flood(color: u32) -> spec_fn(int, int) -> Option<u32> {
    |px: int, py: int| Some(color)
}

/// The ink that paints nothing.
pub open spec fn blank() -> spec_fn(int, int) -> Option<u32> {
    |px: int, py: int| None
}

/// The ink of `top` laid over the ink of `bottom`.
pub open spec fn over(
    top: spec_fn(int, int) -> Option<u32>,
    bottom: spec_fn(int, int) -> Option<u32>,
) -> spec_fn(int, int) -> Option<u32> {
    |px: int, py: int|
        match top(px, py) {
            Some(c) => Some(c),
            None => bottom(px, py),
        }
}

/// The ink of a filled rectangle.
pub open spec fn rect_ink(rect: Rect, color: u32) -> spec_fn(int, int) -> Option<u32> {
    |px: int, py: int|
        if rect.covers(px, py) {
            Some(color)
        } else {
            None
        }
}

/// Whether `(x, y)` lies on the disc around `center`: inside the bounding
/// square `[-radius, radius)` on both axes and no further from the center
/// than `radius`.
pub open spec fn disc_covers(center: Point, radius: int, x: int, y: int) -> bool {
    let dx = x - center.x;
    let dy = y - center.y;
    &&& -radius <= dx < radius
    &&& -radius <= dy < radius
    &&& dx * dx + dy * dy <= radius * radius
}

/// The ink of a filled disc.
pub open spec fn disc_ink(center: Point, radius: int, color: u32) -> spec_fn(int, int) -> Option<
    u32,
> {
    |px: int, py: int|
        if disc_covers(center, radius, px, py) {
            Some(color)
        } else {
            None
        }
}

/// The ink of a line through the pixels `points`.
pub open spec fn line_ink(points: Seq<(i64, i64)>, color: u32) -> spec_fn(int, int) -> Option<
    u32,
> {
    |px: int, py: int|
        if on_line(points, px, py) {
            Some(color)
        } else {
            None
        }
}

/// The four edges of a rectangle as lines between its corners: top, bottom,
/// left, right.
pub open spec fn outline_edges(rect: Rect) -> (
    Seq<(i64, i64)>,
    Seq<(i64, i64)>,
    Seq<(i64, i64)>,
    Seq<(i64, i64)>,
) {
    let right = rect.right() as i64;
    let bottom = rect.bottom() as i64;
    (
        line_points(rect.x, rect.y, right, rect.y),
        line_points(rect.x, bottom, right, bottom),
        line_points(rect.x, rect.y, rect.x, bottom),
        line_points(right, rect.y, right, bottom),
    )
}

/// The ink of a rectangle's outline.
pub open spec fn outline_ink(rect: Rect, color: u32) -> spec_fn(int, int) -> Option<u32> {
    |px: int, py: int|
        {
            let (top, bottom, left, right) = outline_edges(rect);
            if on_line(top, px, py) || on_line(bottom, px, py) || on_line(left, px, py) || on_line(
                right,
                px,
                py,
            ) {
                Some(color)
            } else {
                None
            }
        }
}

/// Whether the corners of `rect` can be the ends of lines.
pub open spec fn outline_in_range(rect: Rect) -> bool {
    &&& line_coord(rect.x as int)
    &&& line_coord(rect.y as int)
    &&& line_coord(rect.right())
    &&& line_coord(rect.bottom())
}

} // verus!
