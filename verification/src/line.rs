//! Straight lines between two pixels.
//!
//! The walk along a line is the one of the `line_drawing` crate. Verus does
//! not read that crate: what this module states of it is taken on trust, and
//! says no more than which pixels the walk yields.

use vstd::prelude::*;

verus! {

/// `line_drawing::Bresenham`, the iterator over the pixels of a line. Its
/// state is opaque here.
#[verifier::external_type_specification]
#[verifier::external_body]
#[verifier::reject_recursive_types(T)]
pub struct ExBresenham<T>(line_drawing::Bresenham<T>);

/// The pixels that `line_drawing::Bresenham` yields, in order, for the line
/// from `(x0, y0)` to `(x1, y1)`.
pub uninterp spec fn line_points(x0: i64, y0: i64, x1: i64, y1: i64) -> Seq<(i64, i64)>;

/// The pixels that a walk has yet to yield, in order.
pub uninterp spec fn line_pending(walk: line_drawing::Bresenham<i64>) -> Seq<(i64, i64)>;

/// The largest magnitude of a line's coordinates: with it every difference
/// of two coordinates, and one step past either end, still fits in an `i64`.
pub const LINE_LIMIT: i64 = 0x3fff_ffff_ffff_ffff;

/// Whether `c` can be a coordinate of a line's end.
pub open spec fn line_coord(c: int) -> bool {
    -LINE_LIMIT <= c <= LINE_LIMIT
}

/// Whether `(x, y)` is one of `points`.
pub open spec fn on_line(points: Seq<(i64, i64)>, x: int, y: int) -> bool {
    exists|k: int| 0 <= k < points.len() && (#[trigger] points[k]).0 == x && points[k].1 == y
}

/// One more point on a line adds that point and nothing else.
pub proof fn lemma_on_line_push(points: Seq<(i64, i64)>, p: (i64, i64), x: int, y: int)
    ensures
        on_line(points.push(p), x, y) <==> on_line(points, x, y) || (p.0 == x && p.1 == y),
{
    let more = points.push(p);
    if on_line(points, x, y) {
        let k = choose|k: int| 0 <= k < points.len() && (#[trigger] points[k]).0 == x && points[k].1 == y;
        assert(more[k] == points[k]);
    }
    if p.0 == x && p.1 == y {
        assert(more[points.len() as int] == p);
    }
    if on_line(more, x, y) {
        let k = choose|k: int| 0 <= k < more.len() && (#[trigger] more[k]).0 == x && more[k].1 == y;
        if k < points.len() {
            assert(points[k] == more[k]);
        }
    }
}

/// Starts the walk from `(x0, y0)` to `(x1, y1)` with
/// `line_drawing::Bresenham::new`. Taken on trust: the walk yields the
/// pixels named `line_points`, which begin with the first end of the line
/// and finish with the second ("includes both the start and end point"). The
/// coordinates are bounded because the crate's arithmetic on them is
/// unchecked.
#[verifier::external_body]
pub(crate) fn line_walk(x0: i64, y0: i64, x1: i64, y1: i64) -> (walk: line_drawing::Bresenham<i64>)
    requires
        line_coord(x0 as int),
        line_coord(y0 as int),
        line_coord(x1 as int),
        line_coord(y1 as int),
    ensures
        line_pending(walk) == line_points(x0, y0, x1, y1),
        line_pending(walk).len() > 0,
        line_pending(walk).first() == (x0, y0),
        line_pending(walk).last() == (x1, y1),
{
    line_drawing::Bresenham::new((x0, y0), (x1, y1))
}

/// Takes the next pixel of a walk with the `Iterator::next` of
/// `line_drawing::Bresenham`. Taken on trust: it hands out the first pending
/// pixel and keeps the rest, or `None` once nothing is pending.
#[verifier::external_body]
pub(crate) fn line_step(walk: &mut line_drawing::Bresenham<i64>) -> (next: Option<(i64, i64)>)
    ensures
        match next {
            Some(p) => line_pending(*old(walk)).len() > 0 && p == line_pending(*old(walk)).first()
                && line_pending(*final(walk)) == line_pending(*old(walk)).skip(1),
            None => line_pending(*old(walk)).len() == 0 && line_pending(*final(walk)).len() == 0,
        },
{
    walk.next()
}

} // verus!
