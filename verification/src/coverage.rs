//! Which pixels a drawing touches, and how many: the area of a filled
//! rectangle, the growth of a disc with its radius, and what lies wholly
//! off the canvas.

use vstd::prelude::*;
use vstd::arithmetic::div_mod::{
    lemma_div_pos_is_pos, lemma_fundamental_div_mod, lemma_fundamental_div_mod_converse,
    lemma_mod_bound, lemma_multiply_divide_lt,
};
use vstd::set_lib::{lemma_int_range, lemma_len_subset, lemma_set_disjoint_lens, set_int_range};
use crate::geometry::{Point, Rect};
use crate::graphics::{lemma_cell_index, Graphics};
use crate::ink::{disc_covers, disc_ink, dot, line_ink, outline_edges, outline_ink, rect_ink};
use crate::line::on_line;
use crate::sprite::Sprite;

verus! {

/// The positions in a frame of `width` by `height` pixels, counted row by
/// row from the top left, of the pixels on which `ink` paints.
pub open spec fn inked(ink: spec_fn(int, int) -> Option<u32>, width: int, height: int) -> Set<int> {
    Set::new(|i: int| 0 <= i < width * height && ink(i % width, i / width) is Some)
}

/// Whether `ink` paints no pixel of a canvas of `width` by `height` pixels.
pub open spec fn off_canvas(ink: spec_fn(int, int) -> Option<u32>, width: int, height: int) -> bool {
    forall|x: int, y: int| 0 <= x < width && 0 <= y < height ==> (#[trigger] ink(x, y)) is None
}

/// The column and row of a position in a frame are a pixel of the frame,
/// and give the position back.
pub proof fn lemma_position_cell(i: int, width: int, height: int)
    requires
        0 <= i < width * height,
        0 <= height,
    ensures
        0 < width,
        0 <= i % width < width,
        0 <= i / width < height,
        i == (i / width) * width + i % width,
{
    assert(0 < width) by (nonlinear_arith)
        requires
            0 <= i < width * height,
            0 <= height,
    ;
    lemma_mod_bound(i, width);
    lemma_div_pos_is_pos(i, width);
    lemma_multiply_divide_lt(i, width, height);
    lemma_fundamental_div_mod(i, width);
    assert(width * (i / width) == (i / width) * width) by (nonlinear_arith);
}

/// The pixels on which an ink paints are finitely many, at most as many as
/// the frame has.
pub proof fn lemma_inked_bounded(ink: spec_fn(int, int) -> Option<u32>, width: int, height: int)
    requires
        0 <= width,
        0 <= height,
    ensures
        inked(ink, width, height).finite(),
        inked(ink, width, height).len() <= width * height,
{
    assert(0 <= width * height) by (nonlinear_arith)
        requires
            0 <= width,
            0 <= height,
    ;
    lemma_int_range(0, width * height);
    assert(inked(ink, width, height).subset_of(set_int_range(0, width * height)));
    lemma_len_subset(inked(ink, width, height), set_int_range(0, width * height));
}

/// A drawing, position by position: each entry of the frame is the ink's
/// color where it paints and the earlier entry elsewhere.
pub proof fn lemma_drawn_by_position(
    after: &Graphics,
    before: &Graphics,
    ink: spec_fn(int, int) -> Option<u32>,
)
    requires
        after.drawn(before, ink),
    ensures
        after@.len() == before@.len(),
        forall|i: int|
            0 <= i < after@.len() ==> #[trigger] after@[i] == match ink(
                i % after.spec_width(),
                i / after.spec_width(),
            ) {
                Some(c) => c,
                None => before@[i],
            },
{
    let w = after.spec_width();
    let h = after.spec_height();
    assert forall|i: int| 0 <= i < after@.len() implies #[trigger] after@[i] == match ink(
        i % w,
        i / w,
    ) {
        Some(c) => c,
        None => before@[i],
    } by {
        after.lemma_size_not_negative();
        lemma_position_cell(i, w, h);
        let x = i % w;
        let y = i / w;
        assert(after.holds(x, y));
        assert(after.pixel(x, y) == after@[i]);
        assert(before.pixel(x, y) == before@[i]);
    }
}

/// The positions of the pixels in the columns `x0..x1` of the rows
/// `y0..y1`.
spec fn span(x0: int, x1: int, y0: int, y1: int, width: int, height: int) -> Set<int> {
    Set::new(
        |i: int| 0 <= i < width * height && x0 <= i % width < x1 && y0 <= i / width < y1,
    )
}

/// A span that lies on the frame holds as many pixels as it is wide times
/// as it is high.
proof fn lemma_span_len(x0: int, x1: int, y0: int, y1: int, width: int, height: int)
    requires
        0 <= x0 <= x1 <= width,
        0 <= y0 <= y1 <= height,
    ensures
        span(x0, x1, y0, y1, width, height).finite(),
        span(x0, x1, y0, y1, width, height).len() == (x1 - x0) * (y1 - y0),
    decreases y1 - y0,
{
    let whole = span(x0, x1, y0, y1, width, height);
    if y0 == y1 || x0 == x1 {
        assert(whole =~= Set::<int>::empty());
        assert((x1 - x0) * (y1 - y0) == 0) by (nonlinear_arith)
            requires
                y0 == y1 || x0 == x1,
        ;
    } else {
        let y = y1 - 1;
        let above = span(x0, x1, y0, y, width, height);
        let row = set_int_range(y * width + x0, y * width + x1);
        lemma_span_len(x0, x1, y0, y, width, height);
        lemma_int_range(y * width + x0, y * width + x1);
        assert forall|i: int| whole.contains(i) <==> above.contains(i) || row.contains(i) by {
            if row.contains(i) {
                let r = i - y * width;
                lemma_cell_index(r, y, width, height);
            }
            if whole.contains(i) && !above.contains(i) {
                lemma_position_cell(i, width, height);
            }
        }
        assert(whole =~= above + row);
        assert(above.disjoint(row)) by {
            assert forall|i: int| !(above.contains(i) && row.contains(i)) by {
                if row.contains(i) {
                    let r = i - y * width;
                    lemma_cell_index(r, y, width, height);
                }
            }
        }
        lemma_set_disjoint_lens(above, row);
        assert((x1 - x0) * (y1 - y0) == (x1 - x0) * (y - y0) + (x1 - x0)) by (nonlinear_arith)
            requires
                y == y1 - 1,
        ;
    }
}

/// A filled rectangle that lies wholly on the canvas sets exactly as many
/// pixels as it is wide times as it is high, all to its color, and leaves
/// every other pixel as it was.
pub proof fn lemma_filled_rect_sets_its_area(
    after: &Graphics,
    before: &Graphics,
    rect: Rect,
    color: u32,
)
    requires
        after.drawn(before, rect_ink(rect, color)),
        rect.within(before.spec_width(), before.spec_height()),
    ensures
        inked(rect_ink(rect, color), before.spec_width(), before.spec_height()).finite(),
        inked(rect_ink(rect, color), before.spec_width(), before.spec_height()).len() == rect.w
            * rect.h,
        forall|i: int|
            inked(rect_ink(rect, color), before.spec_width(), before.spec_height()).contains(i)
                ==> #[trigger] after@[i] == color,
        forall|i: int|
            0 <= i < after@.len() && !inked(
                rect_ink(rect, color),
                before.spec_width(),
                before.spec_height(),
            ).contains(i) ==> #[trigger] after@[i] == before@[i],
{
    let w = before.spec_width();
    let h = before.spec_height();
    let cells = inked(rect_ink(rect, color), w, h);
    lemma_span_len(rect.x as int, rect.right(), rect.y as int, rect.bottom(), w, h);
    assert(cells =~= span(rect.x as int, rect.right(), rect.y as int, rect.bottom(), w, h));
    lemma_drawn_by_position(after, before, rect_ink(rect, color));
}

/// What a disc paints lies within its radius of the center, and what it
/// leaves out of its bounding square lies beyond.
pub proof fn lemma_disc_is_within_radius(center: Point, radius: int, color: u32, x: int, y: int)
    ensures
        ({
            let dx = x - center.x;
            let dy = y - center.y;
            let painted = disc_ink(center, radius, color)(x, y) is Some;
            &&& painted ==> dx * dx + dy * dy <= radius * radius
            &&& !painted && -radius <= dx < radius && -radius <= dy < radius ==> dx * dx + dy * dy
                > radius * radius
        }),
{
}

/// A disc of a larger radius around the same center paints every pixel
/// that the smaller one paints, so it paints at least as many.
pub proof fn lemma_disc_grows_with_radius(
    center: Point,
    small: int,
    large: int,
    color: u32,
    width: int,
    height: int,
)
    requires
        small <= large,
        0 <= width,
        0 <= height,
    ensures
        inked(disc_ink(center, small, color), width, height).subset_of(
            inked(disc_ink(center, large, color), width, height),
        ),
        inked(disc_ink(center, small, color), width, height).len() <= inked(
            disc_ink(center, large, color),
            width,
            height,
        ).len(),
{
    let inner = inked(disc_ink(center, small, color), width, height);
    let outer = inked(disc_ink(center, large, color), width, height);
    assert forall|i: int| inner.contains(i) implies outer.contains(i) by {
        let x = i % width;
        let y = i / width;
        assert(disc_covers(center, small, x, y));
        assert(small * small <= large * large) by (nonlinear_arith)
            requires
                0 < small <= large,
        ;
    }
    lemma_inked_bounded(disc_ink(center, large, color), width, height);
    lemma_len_subset(inner, outer);
}

/// A drawing whose ink paints no pixel of the canvas leaves the canvas as
/// it was.
pub proof fn lemma_off_canvas_changes_nothing(
    after: &Graphics,
    before: &Graphics,
    ink: spec_fn(int, int) -> Option<u32>,
)
    requires
        after.drawn(before, ink),
        off_canvas(ink, before.spec_width(), before.spec_height()),
    ensures
        after@ == before@,
{
    let w = after.spec_width();
    let h = after.spec_height();
    lemma_drawn_by_position(after, before, ink);
    assert forall|i: int| 0 <= i < after@.len() implies after@[i] == before@[i] by {
        after.lemma_size_not_negative();
        lemma_position_cell(i, w, h);
        assert(ink(i % w, i / w) is None);
    }
    assert(after@ =~= before@);
}

/// A pixel that is not on the canvas paints nothing of it.
pub proof fn lemma_dot_off_canvas(x: int, y: int, color: u32, width: int, height: int)
    requires
        !(0 <= x < width && 0 <= y < height),
    ensures
        off_canvas(dot(x, y, color), width, height),
{
}

/// A filled rectangle whose span misses the canvas paints nothing of it.
pub proof fn lemma_rect_off_canvas(rect: Rect, color: u32, width: int, height: int)
    requires
        rect.misses(width, height),
    ensures
        off_canvas(rect_ink(rect, color), width, height),
{
}

/// Whether the bounding square of a disc misses a canvas of `width` by
/// `height` pixels.
pub open spec fn disc_misses(center: Point, radius: int, width: int, height: int) -> bool {
    ||| radius <= 0
    ||| center.x + radius <= 0
    ||| center.y + radius <= 0
    ||| width <= center.x - radius
    ||| height <= center.y - radius
}

/// A disc whose bounding square misses the canvas paints nothing of it.
pub proof fn lemma_disc_off_canvas(center: Point, radius: int, color: u32, width: int, height: int)
    requires
        disc_misses(center, radius, width, height),
    ensures
        off_canvas(disc_ink(center, radius, color), width, height),
{
}

/// Whether none of `points` is a pixel of a canvas of `width` by `height`
/// pixels.
pub open spec fn line_misses(points: Seq<(i64, i64)>, width: int, height: int) -> bool {
    forall|k: int|
        0 <= k < points.len() ==> !(0 <= (#[trigger] points[k]).0 < width && 0 <= points[k].1
            < height)
}

/// A line with no pixel on the canvas paints nothing of it.
pub proof fn lemma_line_off_canvas(points: Seq<(i64, i64)>, color: u32, width: int, height: int)
    requires
        line_misses(points, width, height),
    ensures
        off_canvas(line_ink(points, color), width, height),
{
    assert forall|x: int, y: int| 0 <= x < width && 0 <= y < height implies (#[trigger] line_ink(
        points,
        color,
    )(x, y)) is None by {
        if on_line(points, x, y) {
            let k = choose|k: int|
                0 <= k < points.len() && (#[trigger] points[k]).0 == x && points[k].1 == y;
            assert(!(0 <= points[k].0 < width && 0 <= points[k].1 < height));
        }
    }
}

/// Whether none of the four edges of `rect` has a pixel on a canvas of
/// `width` by `height` pixels.
pub open spec fn outline_misses(rect: Rect, width: int, height: int) -> bool {
    let (top, bottom, left, right) = outline_edges(rect);
    &&& line_misses(top, width, height)
    &&& line_misses(bottom, width, height)
    &&& line_misses(left, width, height)
    &&& line_misses(right, width, height)
}

/// An outline with no pixel on the canvas paints nothing of it.
pub proof fn lemma_outline_off_canvas(rect: Rect, color: u32, width: int, height: int)
    requires
        outline_misses(rect, width, height),
    ensures
        off_canvas(outline_ink(rect, color), width, height),
{
    let (top, bottom, left, right) = outline_edges(rect);
    lemma_line_off_canvas(top, color, width, height);
    lemma_line_off_canvas(bottom, color, width, height);
    lemma_line_off_canvas(left, color, width, height);
    lemma_line_off_canvas(right, color, width, height);
    assert forall|x: int, y: int| 0 <= x < width && 0 <= y < height implies (#[trigger] outline_ink(
        rect,
        color,
    )(x, y)) is None by {
        assert(line_ink(top, color)(x, y) is None);
        assert(line_ink(bottom, color)(x, y) is None);
        assert(line_ink(left, color)(x, y) is None);
        assert(line_ink(right, color)(x, y) is None);
    }
}

/// Whether the frame of `sprite`, drawn with its anchor at `pos`, misses a
/// canvas of `width` by `height` pixels.
pub open spec fn sprite_misses(sprite: &Sprite, pos: Point, width: int, height: int) -> bool {
    let left = pos.x - sprite.anchor().x;
    let top = pos.y - sprite.anchor().y;
    ||| sprite.frame_width() == 0
    ||| sprite.frame_height() == 0
    ||| left + sprite.frame_width() <= 0
    ||| top + sprite.frame_height() <= 0
    ||| width <= left
    ||| height <= top
}

/// A sprite whose frame misses the canvas paints nothing of it.
pub proof fn lemma_sprite_off_canvas(
    sprite: &Sprite,
    pos: Point,
    frame: nat,
    width: int,
    height: int,
)
    requires
        sprite_misses(sprite, pos, width, height),
    ensures
        off_canvas(sprite.ink(pos, frame), width, height),
{
}

/// A frame number beyond the last frame wraps around: drawing frame
/// `frame_count + k` gives the same canvas, pixel for pixel, as drawing
/// frame `k`.
pub proof fn lemma_sprite_frames_wrap(
    wrapped: &Graphics,
    plain: &Graphics,
    before: &Graphics,
    sprite: &Sprite,
    pos: Point,
    k: nat,
)
    requires
        sprite.frame_count() > 0,
        wrapped.drawn(before, sprite.ink(pos, sprite.frame_count() + k)),
        plain.drawn(before, sprite.ink(pos, k)),
    ensures
        sprite.ink(pos, sprite.frame_count() + k) == sprite.ink(pos, k),
        wrapped@ == plain@,
{
    let n = sprite.frame_count();
    assert((n + k) % n == k % n) by (nonlinear_arith)
        requires
            n > 0,
    ;
    assert(sprite.ink(pos, n + k) =~= sprite.ink(pos, k));
    lemma_drawn_by_position(wrapped, before, sprite.ink(pos, k));
    lemma_drawn_by_position(plain, before, sprite.ink(pos, k));
    assert(wrapped@ =~= plain@);
}

} // verus!
