//! The logical canvas and its drawing primitives.
//!
//! Every primitive clips for itself: a pixel that falls outside the canvas is
//! skipped, never an error. What a primitive does is stated through its
//! ink: the canvas after is the canvas before with the ink applied.

use vstd::prelude::*;
use vstd::arithmetic::div_mod::lemma_fundamental_div_mod_converse;
use crate::color::{pack, rgb};
use crate::coverage::{
    disc_misses, lemma_disc_off_canvas, lemma_dot_off_canvas, lemma_line_off_canvas,
    lemma_off_canvas_changes_nothing, lemma_outline_off_canvas, lemma_rect_off_canvas,
    lemma_sprite_off_canvas, line_misses, outline_misses, sprite_misses,
};
use crate::geometry::{Point, Rect};
use crate::ink::{
    blank, disc_covers, disc_ink, dot, flood, line_ink, outline_edges, outline_in_range,
    outline_ink, over, rect_ink,
};
use crate::line::{
    lemma_on_line_push, line_coord, line_pending, line_points, line_step, line_walk,
};
use crate::sprite::{sheet_pixels, sheet_width, Sprite};

verus! {

/// The part of a filled rectangle that a row-by-row sweep has painted when
/// it stands at `(x, y)`: the rows above `y`, and row `y` left of `x`.
spec fn rect_ink_upto(rect: Rect, color: u32, x: int, y: int) -> spec_fn(int, int) -> Option<u32> {
    |px: int, py: int|
        if rect.covers(px, py) && (py < y || (py == y && px < x)) {
            Some(color)
        } else {
            None
        }
}

/// The part of a disc that a row-by-row sweep has painted when it stands at
/// `(x, y)`.
spec fn disc_ink_upto(center: Point, radius: int, color: u32, x: int, y: int) -> spec_fn(
    int,
    int,
) -> Option<u32> {
    |px: int, py: int|
        if disc_covers(center, radius, px, py) && (py < y || (py == y && px < x)) {
            Some(color)
        } else {
            None
        }
}

/// The part of a sprite's frame that a row-by-row sweep over the frame has
/// painted when it stands at the frame's pixel `(i0, j0)`.
spec fn sprite_ink_upto(sprite: &Sprite, pos: Point, frame: nat, i0: int, j0: int) -> spec_fn(
    int,
    int,
) -> Option<u32> {
    |px: int, py: int|
        {
            let i = px - pos.x + sprite.anchor().x;
            let j = py - pos.y + sprite.anchor().y;
            if j < j0 || (j == j0 && i < i0) {
                sprite.ink(pos, frame)(px, py)
            } else {
                None
            }
        }
}

/// `v` brought into `0..=limit`.
spec fn clamped(v: int, limit: int) -> int {
    if v < 0 {
        0
    } else if v > limit {
        limit
    } else {
        v
    }
}

/// `v` brought into `0..=limit`.
fn clamp_to(v: i128, limit: usize) -> (r: usize)
    ensures
        r == clamped(v as int, limit as int),
{
    if v < 0 {
        0
    } else if v > limit as i128 {
        limit
    } else {
        v as usize
    }
}

/// Row-major position of the pixel `(x, y)` on a grid `w` pixels wide.
pub proof fn lemma_cell_index(x: int, y: int, w: int, h: int)
    requires
        0 <= x < w,
        0 <= y < h,
    ensures
        0 <= y * w <= y * w + x < w * h,
        (y * w + x) % w == x,
        (y * w + x) / w == y,
{
    assert(0 <= y * w && y * w + w <= w * h) by (nonlinear_arith)
        requires
            0 <= y < h,
            0 < w,
    ;
    lemma_fundamental_div_mod_converse(y * w + x, w, y, x);
}

/// The fixed-size grid of packed RGB pixels that clients draw into.
pub struct Graphics {
    width: usize,
    height: usize,
    framebuffer: Vec<u32>,
}

impl Graphics {
    #[verifier::type_invariant]
    spec fn well_formed(&self) -> bool {
        self.framebuffer@.len() == self.width * self.height <= usize::MAX
    }

    /// The pixels, row by row from the top left.
    pub closed spec fn view(&self) -> Seq<u32> {
        self.framebuffer@
    }

    /// The width in pixels.
    pub closed spec fn spec_width(&self) -> int {
        self.width as int
    }

    /// The height in pixels.
    pub closed spec fn spec_height(&self) -> int {
        self.height as int
    }

    /// Whether `(x, y)` is a pixel of this canvas.
    pub open spec fn holds(&self, x: int, y: int) -> bool {
        0 <= x < self.spec_width() && 0 <= y < self.spec_height()
    }

    /// The color of the pixel `(x, y)`.
    pub open spec fn pixel(&self, x: int, y: int) -> u32 {
        self@[y * self.spec_width() + x]
    }

    /// Whether this canvas is `before` with `ink` applied: same size, each
    /// pixel the ink's color where it paints and the earlier color elsewhere.
    pub open spec fn drawn(&self, before: &Graphics, ink: spec_fn(int, int) -> Option<u32>) -> bool {
        &&& self.spec_width() == before.spec_width()
        &&& self.spec_height() == before.spec_height()
        &&& self@.len() == self.spec_width() * self.spec_height()
        &&& before@.len() == self@.len()
        &&& forall|x: int, y: int|
            self.holds(x, y) ==> #[trigger] self.pixel(x, y) == match ink(x, y) {
                Some(c) => c,
                None => before.pixel(x, y),
            }
    }

    /// A canvas of `width` by `height` pixels, all zero.
    pub fn new(width: usize, height: usize) -> (g: Graphics)
        requires
            width * height <= usize::MAX,
        ensures
            g.spec_width() == width,
            g.spec_height() == height,
            g@ == Seq::new((width * height) as nat, |i: int| 0u32),
    {
        let n: usize = width * height;
        let framebuffer = vec![0u32; n];
        assert(framebuffer@ =~= Seq::new((width * height) as nat, |i: int| 0u32));
        Graphics { width, height, framebuffer }
    }

    /// The width in pixels.
    pub fn width(&self) -> (w: usize)
        ensures
            w == self.spec_width(),
            self@.len() == self.spec_width() * self.spec_height(),
    {
        proof {
            use_type_invariant(self);
        }
        self.width
    }

    /// The height in pixels.
    pub fn height(&self) -> (h: usize)
        ensures
            h == self.spec_height(),
            self@.len() == self.spec_width() * self.spec_height(),
    {
        proof {
            use_type_invariant(self);
        }
        self.height
    }

    /// Reads the pixel `(x, y)`; `None` outside the canvas.
    pub fn get(&self, x: usize, y: usize) -> (p: Option<u32>)
        ensures
            p == if self.holds(x as int, y as int) {
                Some(self.pixel(x as int, y as int))
            } else {
                None
            },
    {
        proof {
            use_type_invariant(self);
        }
        if x < self.width && y < self.height {
            proof {
                lemma_cell_index(x as int, y as int, self.width as int, self.height as int);
            }
            Some(self.framebuffer[y * self.width + x])
        } else {
            None
        }
    }

    /// The whole frame as a slice, row by row from the top left.
    pub fn as_slice(&self) -> (s: &[u32])
        ensures
            s@ == self@,
            s@.len() == self.spec_width() * self.spec_height(),
    {
        proof {
            use_type_invariant(self);
        }
        self.framebuffer.as_slice()
    }

    /// Writes one pixel that is known to be on the canvas.
    pub(crate) fn put(&mut self, x: usize, y: usize, color: u32)
        requires
            old(self).holds(x as int, y as int),
        ensures
            final(self).drawn(old(self), dot(x as int, y as int, color)),
    {
        proof {
            use_type_invariant(&*self);
            lemma_cell_index(x as int, y as int, self.width as int, self.height as int);
        }
        let index: usize = y * self.width + x;
        self.framebuffer[index] = color;
        proof {
            let w = self.width as int;
            let h = self.height as int;
            assert forall|px: int, py: int| self.holds(px, py) implies #[trigger] self.pixel(
                px,
                py,
            ) == match dot(x as int, y as int, color)(px, py) {
                Some(c) => c,
                None => old(self).pixel(px, py),
            } by {
                lemma_cell_index(px, py, w, h);
            }
        }
    }

    /// Writes one pixel, skipping it when it falls outside the canvas.
    fn plot_wide(&mut self, x: i128, y: i128, color: u32)
        ensures
            final(self).drawn(old(self), dot(x as int, y as int, color)),
    {
        proof {
            use_type_invariant(&*self);
        }
        if 0 <= x && 0 <= y && x < self.width as i128 && y < self.height as i128 {
            self.put(x as usize, y as usize, color);
        }
    }

    /// Sets the pixel `(x, y)` to `color`; a position outside the canvas is
    /// skipped.
    pub fn plot(&mut self, x: i64, y: i64, color: u32)
        ensures
            final(self).drawn(old(self), dot(x as int, y as int, color)),
            !old(self).holds(x as int, y as int) ==> final(self)@ == old(self)@,
    {
        self.plot_wide(x as i128, y as i128, color);
        proof {
            if !old(self).holds(x as int, y as int) {
                lemma_dot_off_canvas(
                    x as int,
                    y as int,
                    color,
                    old(self).spec_width(),
                    old(self).spec_height(),
                );
                lemma_off_canvas_changes_nothing(self, old(self), dot(x as int, y as int, color));
            }
        }
    }

    /// Writes one pixel of a glyph. Text is laid out and rasterized by the
    /// host; what reaches the canvas is, for each pixel `(x, y)` of a glyph
    /// whose bounding box has its top left corner at `(left, top)`, the
    /// three channels of the text color scaled by the pixel's coverage.
    /// They are packed and written at `(left + x, top + y)`, over whatever
    /// was there; a position outside the canvas is skipped.
    pub fn draw_glyph_pixel(
        &mut self,
        left: i32,
        top: i32,
        x: u32,
        y: u32,
        red: u32,
        green: u32,
        blue: u32,
    )
        ensures
            final(self).drawn(old(self), dot(left + x, top + y, rgb(red, green, blue))),
            !old(self).holds(left + x, top + y) ==> final(self)@ == old(self)@,
    {
        let color = pack(red, green, blue);
        self.plot(left as i64 + x as i64, top as i64 + y as i64, color);
    }

    /// A canvas has no negative side.
    pub proof fn lemma_size_not_negative(&self)
        ensures
            0 <= self.spec_width(),
            0 <= self.spec_height(),
    {
    }

    /// A canvas is itself with nothing drawn.
    pub proof fn lemma_drawn_self(&self)
        requires
            self@.len() == self.spec_width() * self.spec_height(),
        ensures
            self.drawn(self, blank()),
    {
    }

    /// Two drawings in a row are one drawing with the second ink over the
    /// first.
    pub proof fn lemma_drawn_twice(
        &self,
        mid: &Graphics,
        before: &Graphics,
        first: spec_fn(int, int) -> Option<u32>,
        second: spec_fn(int, int) -> Option<u32>,
    )
        requires
            mid.drawn(before, first),
            self.drawn(mid, second),
        ensures
            self.drawn(before, over(second, first)),
    {
        assert forall|x: int, y: int| self.holds(x, y) implies #[trigger] self.pixel(x, y) == match over(
            second,
            first,
        )(x, y) {
            Some(c) => c,
            None => before.pixel(x, y),
        } by {
            assert(mid.holds(x, y));
            let p = mid.pixel(x, y);
        }
    }

    /// A drawing is the same drawing under any ink that agrees with its own
    /// on the canvas.
    pub proof fn lemma_drawn_alike(
        &self,
        before: &Graphics,
        ink: spec_fn(int, int) -> Option<u32>,
        other: spec_fn(int, int) -> Option<u32>,
    )
        requires
            self.drawn(before, ink),
            forall|x: int, y: int| self.holds(x, y) ==> #[trigger] ink(x, y) == other(x, y),
        ensures
            self.drawn(before, other),
    {
        assert forall|x: int, y: int| self.holds(x, y) implies #[trigger] self.pixel(x, y) == match other(
            x,
            y,
        ) {
            Some(c) => c,
            None => before.pixel(x, y),
        } by {
            assert(ink(x, y) == other(x, y));
        }
    }

    /// Draws the line from `start` to `end`, both ends included, skipping
    /// the pixels that fall outside the canvas. A line whose ends coincide
    /// is that one pixel.
    pub fn draw_line(&mut self, start: Point, end: Point, color: u32)
        requires
            line_coord(start.x as int),
            line_coord(start.y as int),
            line_coord(end.x as int),
            line_coord(end.y as int),
        ensures
            final(self).drawn(
                old(self),
                line_ink(line_points(start.x, start.y, end.x, end.y), color),
            ),
            old(self).holds(start.x as int, start.y as int) ==> final(self).pixel(
                start.x as int,
                start.y as int,
            ) == color,
            old(self).holds(end.x as int, end.y as int) ==> final(self).pixel(
                end.x as int,
                end.y as int,
            ) == color,
            line_misses(
                line_points(start.x, start.y, end.x, end.y),
                old(self).spec_width(),
                old(self).spec_height(),
            ) ==> final(self)@ == old(self)@,
    {
        proof {
            use_type_invariant(&*self);
        }
        let mut walk = line_walk(start.x, start.y, end.x, end.y);
        let ghost points = line_pending(walk);
        let ghost mut done: int = 0;
        assert(points.take(0) =~= Seq::<(i64, i64)>::empty());
        assert(points.skip(0) =~= points);
        loop
            invariant
                0 <= done <= points.len(),
                line_pending(walk) == points.skip(done),
                self.drawn(old(self), line_ink(points.take(done), color)),
            ensures
                done == points.len(),
            decreases points.len() - done,
        {
            let ghost prev = *self;
            match line_step(&mut walk) {
                Some(p) => {
                    self.plot(p.0, p.1, color);
                    proof {
                        assert(p == points[done]);
                        assert(points.take(done + 1) =~= points.take(done).push(p));
                        assert(points.skip(done).skip(1) =~= points.skip(done + 1));
                        self.lemma_drawn_twice(
                            &prev,
                            old(self),
                            line_ink(points.take(done), color),
                            dot(p.0 as int, p.1 as int, color),
                        );
                        assert forall|x: int, y: int| self.holds(x, y) implies #[trigger] over(
                            dot(p.0 as int, p.1 as int, color),
                            line_ink(points.take(done), color),
                        )(x, y) == line_ink(points.take(done + 1), color)(x, y) by {
                            lemma_on_line_push(points.take(done), p, x, y);
                        }
                        self.lemma_drawn_alike(
                            old(self),
                            over(
                                dot(p.0 as int, p.1 as int, color),
                                line_ink(points.take(done), color),
                            ),
                            line_ink(points.take(done + 1), color),
                        );
                        done = done + 1;
                    }
                },
                None => {
                    assert(points.skip(done).len() == 0);
                    break ;
                },
            }
        }
        proof {
            assert(points.take(done) =~= points);
            assert(points[0] == (start.x, start.y));
            assert(points[points.len() - 1] == (end.x, end.y));
            let w = old(self).spec_width();
            let h = old(self).spec_height();
            if line_misses(points, w, h) {
                lemma_line_off_canvas(points, color, w, h);
                lemma_off_canvas_changes_nothing(self, old(self), line_ink(points, color));
            }
        }
    }

    /// Draws a rectangle. Filled, it paints the span
    /// `[x, x + w) x [y, y + h)`; otherwise it draws the four edges as lines
    /// between the corners `(x, y)` and `(x + w, y + h)`. Either way the
    /// pixels outside the canvas are skipped, and a rectangle of no width or
    /// height is no error: filled it paints nothing, outlined it collapses
    /// onto an edge.
    pub fn draw_rect(&mut self, rect: Rect, color: u32, filled: bool)
        requires
            !filled ==> outline_in_range(rect),
        ensures
            final(self).drawn(
                old(self),
                if filled {
                    rect_ink(rect, color)
                } else {
                    outline_ink(rect, color)
                },
            ),
            (if filled {
                rect.misses(old(self).spec_width(), old(self).spec_height())
            } else {
                outline_misses(rect, old(self).spec_width(), old(self).spec_height())
            }) ==> final(self)@ == old(self)@,
    {
        let ghost w = self.spec_width();
        let ghost h = self.spec_height();
        if filled {
            self.fill_rect(rect, color);
            proof {
                if rect.misses(w, h) {
                    lemma_rect_off_canvas(rect, color, w, h);
                    lemma_off_canvas_changes_nothing(self, old(self), rect_ink(rect, color));
                }
            }
        } else {
            let right: i64 = rect.x + rect.w;
            let bottom: i64 = rect.y + rect.h;
            let ghost (top_edge, bottom_edge, left_edge, right_edge) = outline_edges(rect);
            let ghost before = *self;
            self.draw_line(Point { x: rect.x, y: rect.y }, Point { x: right, y: rect.y }, color);
            let ghost after_top = *self;
            self.draw_line(Point { x: rect.x, y: bottom }, Point { x: right, y: bottom }, color);
            let ghost after_bottom = *self;
            self.draw_line(Point { x: rect.x, y: rect.y }, Point { x: rect.x, y: bottom }, color);
            let ghost after_left = *self;
            self.draw_line(Point { x: right, y: rect.y }, Point { x: right, y: bottom }, color);
            proof {
                let a = line_ink(top_edge, color);
                let b = line_ink(bottom_edge, color);
                let c = line_ink(left_edge, color);
                let d = line_ink(right_edge, color);
                after_bottom.lemma_drawn_twice(&after_top, &before, a, b);
                after_left.lemma_drawn_twice(&after_bottom, &before, over(b, a), c);
                self.lemma_drawn_twice(&after_left, &before, over(c, over(b, a)), d);
                self.lemma_drawn_alike(
                    &before,
                    over(d, over(c, over(b, a))),
                    outline_ink(rect, color),
                );
                if outline_misses(rect, w, h) {
                    lemma_outline_off_canvas(rect, color, w, h);
                    lemma_off_canvas_changes_nothing(self, old(self), outline_ink(rect, color));
                }
            }
        }
    }

    /// Paints the span of `rect`, clipped to the canvas.
    fn fill_rect(&mut self, rect: Rect, color: u32)
        ensures
            final(self).drawn(old(self), rect_ink(rect, color)),
    {
        proof {
            use_type_invariant(&*self);
        }
        let left = clamp_to(rect.x as i128, self.width);
        let right = clamp_to(rect.x as i128 + rect.w as i128, self.width);
        let top = clamp_to(rect.y as i128, self.height);
        let bottom = clamp_to(rect.y as i128 + rect.h as i128, self.height);
        let mut y: usize = top;
        while y < bottom
            invariant
                top <= y,
                bottom <= self.height,
                left == clamped(rect.x as int, self.width as int),
                right == clamped(rect.right(), self.width as int),
                top == clamped(rect.y as int, self.height as int),
                bottom == clamped(rect.bottom(), self.height as int),
                self.drawn(old(self), rect_ink_upto(rect, color, 0, y as int)),
            decreases bottom - y,
        {
            let mut x: usize = left;
            while x < right
                invariant
                    top <= y < bottom,
                    bottom <= self.height,
                    left <= x,
                    left == clamped(rect.x as int, self.width as int),
                    right == clamped(rect.right(), self.width as int),
                    top == clamped(rect.y as int, self.height as int),
                    bottom == clamped(rect.bottom(), self.height as int),
                    self.drawn(old(self), rect_ink_upto(rect, color, x as int, y as int)),
                decreases right - x,
            {
                self.put(x, y, color);
                x += 1;
            }
            y += 1;
        }
    }

    /// Draws a filled disc around `center`: every pixel of the bounding
    /// square `[-radius, radius)` on both axes whose squared distance from
    /// the center is at most `radius` squared. A radius of zero or less
    /// draws nothing.
    pub fn draw_circle(&mut self, center: Point, radius: i64, color: u32)
        ensures
            final(self).drawn(old(self), disc_ink(center, radius as int, color)),
            disc_misses(center, radius as int, old(self).spec_width(), old(self).spec_height())
                ==> final(self)@ == old(self)@,
    {
        self.fill_disc(center, radius, color);
        proof {
            let w = old(self).spec_width();
            let h = old(self).spec_height();
            if disc_misses(center, radius as int, w, h) {
                lemma_disc_off_canvas(center, radius as int, color, w, h);
                lemma_off_canvas_changes_nothing(
                    self,
                    old(self),
                    disc_ink(center, radius as int, color),
                );
            }
        }
    }

    /// Paints the disc around `center`, clipped to the canvas.
    fn fill_disc(&mut self, center: Point, radius: i64, color: u32)
        ensures
            final(self).drawn(old(self), disc_ink(center, radius as int, color)),
    {
        proof {
            use_type_invariant(&*self);
        }
        if radius <= 0 {
            return ;
        }
        let cx = center.x as i128;
        let cy = center.y as i128;
        let r = radius as i128;
        let left = clamp_to(cx - r, self.width);
        let right = clamp_to(cx + r, self.width);
        let top = clamp_to(cy - r, self.height);
        let bottom = clamp_to(cy + r, self.height);
        assert(r * r <= 0x3fff_ffff_ffff_ffff_0000_0000_0000_0001) by (nonlinear_arith)
            requires
                0 < r <= 0x7fff_ffff_ffff_ffff,
        ;
        let rr: i128 = r * r;
        let mut y: usize = top;
        while y < bottom
            invariant
                0 < r <= 0x7fff_ffff_ffff_ffff,
                r == radius,
                cx == center.x,
                cy == center.y,
                rr == r * r,
                rr <= 0x3fff_ffff_ffff_ffff_0000_0000_0000_0001,
                top <= y,
                bottom <= self.height,
                left == clamped(cx - r, self.width as int),
                right == clamped(cx + r, self.width as int),
                top == clamped(cy - r, self.height as int),
                bottom == clamped(cy + r, self.height as int),
                self.drawn(old(self), disc_ink_upto(center, radius as int, color, 0, y as int)),
            decreases bottom - y,
        {
            let dy: i128 = y as i128 - cy;
            assert(0 <= dy * dy <= r * r) by (nonlinear_arith)
                requires
                    -r <= dy < r,
            ;
            let mut x: usize = left;
            while x < right
                invariant
                    0 < r <= 0x7fff_ffff_ffff_ffff,
                    r == radius,
                    cx == center.x,
                    cy == center.y,
                    rr == r * r,
                    rr <= 0x3fff_ffff_ffff_ffff_0000_0000_0000_0001,
                    dy == y - cy,
                    0 <= dy * dy <= rr,
                    top <= y < bottom,
                    bottom <= self.height,
                    left <= x,
                    left == clamped(cx - r, self.width as int),
                    right == clamped(cx + r, self.width as int),
                    top == clamped(cy - r, self.height as int),
                    bottom == clamped(cy + r, self.height as int),
                    self.drawn(old(self), disc_ink_upto(center, radius as int, color, x as int, y as int)),
                decreases right - x,
            {
                let dx: i128 = x as i128 - cx;
                assert(0 <= dx * dx <= r * r) by (nonlinear_arith)
                    requires
                        -r <= dx < r,
                ;
                if dx * dx + dy * dy <= rr {
                    self.put(x, y, color);
                }
                x += 1;
            }
            y += 1;
        }
    }

    /// Draws one frame of `sprite` with its anchor at `pos`. The frame is
    /// `frame` modulo the number of frames, so an animation loops. A pixel
    /// of the frame with alpha zero is skipped; any other is written with
    /// its red, green and blue, unblended. Pixels that fall outside the
    /// canvas are skipped.
    pub fn draw_sprite(&mut self, sprite: &Sprite, pos: Point, frame: usize)
        ensures
            final(self).drawn(old(self), sprite.ink(pos, frame as nat)),
            sprite_misses(sprite, pos, old(self).spec_width(), old(self).spec_height())
                ==> final(self)@ == old(self)@,
    {
        self.stamp(sprite, pos, frame);
        proof {
            let w = old(self).spec_width();
            let h = old(self).spec_height();
            if sprite_misses(sprite, pos, w, h) {
                lemma_sprite_off_canvas(sprite, pos, frame as nat, w, h);
                lemma_off_canvas_changes_nothing(self, old(self), sprite.ink(pos, frame as nat));
            }
        }
    }

    /// Paints one frame of `sprite`, clipped to the canvas.
    fn stamp(&mut self, sprite: &Sprite, pos: Point, frame: usize)
        ensures
            final(self).drawn(old(self), sprite.ink(pos, frame as nat)),
    {
        proof {
            use_type_invariant(&*self);
        }
        let frames: usize = sprite.frames();
        let shown: usize = frame % frames;
        let sheet_w: usize = sprite.width() as usize;
        let rows: u32 = sprite.height();
        let across: usize = sheet_w / frames;
        assert(across * shown + across <= sheet_w) by (nonlinear_arith)
            requires
                across == sheet_w / frames,
                0 <= shown < frames,
        ;
        assert(0 <= across * shown) by (nonlinear_arith)
            requires
                0 <= across,
                0 <= shown,
        ;
        let offset: usize = across * shown;
        let cx: i128 = sprite.center().x as i128;
        let cy: i128 = sprite.center().y as i128;
        let mut j: u32 = 0;
        while j < rows
            invariant
                j <= rows,
                rows == sprite.frame_height(),
                across == sprite.frame_width(),
                offset == sprite.frame_width() * (frame as nat % sprite.frame_count()),
                offset + across <= sheet_width(sprite.sheet()),
                cx == sprite.anchor().x,
                cy == sprite.anchor().y,
                self.drawn(old(self), sprite_ink_upto(sprite, pos, frame as nat, 0, j as int)),
            decreases rows - j,
        {
            let mut i: usize = 0;
            while i < across
                invariant
                    j < rows,
                    i <= across,
                    rows == sprite.frame_height(),
                    across == sprite.frame_width(),
                    offset == sprite.frame_width() * (frame as nat % sprite.frame_count()),
                    offset + across <= sheet_width(sprite.sheet()),
                    cx == sprite.anchor().x,
                    cy == sprite.anchor().y,
                    self.drawn(
                        old(self),
                        sprite_ink_upto(sprite, pos, frame as nat, i as int, j as int),
                    ),
                decreases across - i,
            {
                let ghost prev = *self;
                let ghost so_far = sprite_ink_upto(sprite, pos, frame as nat, i as int, j as int);
                let ghost next = sprite_ink_upto(sprite, pos, frame as nat, i + 1, j as int);
                let x: i128 = i as i128 - cx + pos.x as i128;
                let y: i128 = j as i128 - cy + pos.y as i128;
                let texel = sprite.get((i + offset) as u32, j);
                let ghost t = sheet_pixels(sprite.sheet())[(i + offset, j as int)];
                assert(texel == Some(t));
                assert(t == sprite.texel(frame as nat, i as int, j as int));
                match texel {
                    Some(p) => {
                        if p.3 != 0 {
                            let color = pack(p.0 as u32, p.1 as u32, p.2 as u32);
                            self.plot_wide(x, y, color);
                            proof {
                                let stamp = dot(x as int, y as int, color);
                                self.lemma_drawn_twice(&prev, old(self), so_far, stamp);
                                assert forall|px: int, py: int| self.holds(px, py) implies #[trigger] over(
                                    stamp,
                                    so_far,
                                )(px, py) == next(px, py) by {}
                                self.lemma_drawn_alike(old(self), over(stamp, so_far), next);
                            }
                        } else {
                            proof {
                                assert forall|px: int, py: int| self.holds(px, py) implies #[trigger] so_far(
                                    px,
                                    py,
                                ) == next(px, py) by {}
                                self.lemma_drawn_alike(old(self), so_far, next);
                            }
                        }
                    },
                    None => {},
                }
                i += 1;
            }
            proof {
                let so_far = sprite_ink_upto(sprite, pos, frame as nat, across as int, j as int);
                let next = sprite_ink_upto(sprite, pos, frame as nat, 0, j + 1);
                assert forall|px: int, py: int| self.holds(px, py) implies #[trigger] so_far(px, py)
                    == next(px, py) by {}
                self.lemma_drawn_alike(old(self), so_far, next);
            }
            j += 1;
        }
        proof {
            let so_far = sprite_ink_upto(sprite, pos, frame as nat, 0, rows as int);
            let whole = sprite.ink(pos, frame as nat);
            assert forall|px: int, py: int| self.holds(px, py) implies #[trigger] so_far(px, py)
                == whole(px, py) by {}
            self.lemma_drawn_alike(old(self), so_far, whole);
        }
    }

    /// Overwrites every pixel with `color`.
    pub fn clear(&mut self, color: u32)
        ensures
            final(self).drawn(old(self), flood(color)),
            final(self)@ == Seq::new(old(self)@.len(), |i: int| color),
    {
        proof {
            use_type_invariant(&*self);
        }
        let n: usize = self.framebuffer.len();
        let mut i: usize = 0;
        while i < n
            invariant
                i <= n,
                n == self.framebuffer@.len(),
                self.width == old(self).width,
                self.height == old(self).height,
                n == self.width * self.height,
                forall|j: int| 0 <= j < i ==> self.framebuffer@[j] == color,
            decreases n - i,
        {
            self.framebuffer[i] = color;
            i += 1;
        }
        proof {
            let w = self.width as int;
            let h = self.height as int;
            assert forall|px: int, py: int| self.holds(px, py) implies #[trigger] self.pixel(
                px,
                py,
            ) == color by {
                lemma_cell_index(px, py, w, h);
            }
            assert(self@ =~= Seq::new(old(self)@.len(), |i: int| color));
        }
    }
}

} // verus!
