//! The presentation pipeline: the logical canvas magnified onto the
//! physical surface by a whole factor, nearest neighbor, no blending.

use vstd::prelude::*;
use vstd::arithmetic::div_mod::lemma_fundamental_div_mod_converse;
use crate::graphics::{lemma_cell_index, Graphics};
use crate::ink::{blank, dot, over};

verus! {

/// The ink of `canvas` magnified `scale` times: the physical pixel
/// `(px, py)` takes the color of the logical pixel `(px / scale, py / scale)`
/// where there is one.
pub open spec fn upscale_ink(canvas: &Graphics, scale: int) -> spec_fn(int, int) -> Option<u32> {
    |px: int, py: int|
        if scale > 0 && canvas.holds(px / scale, py / scale) {
            Some(canvas.pixel(px / scale, py / scale))
        } else {
            None
        }
}

/// Every physical pixel of the block of `scale` by `scale` pixels anchored
/// at `(x * scale, y * scale)` shows the logical pixel `(x, y)`.
pub proof fn lemma_block_shows_pixel(canvas: &Graphics, scale: int, x: int, y: int, dx: int, dy: int)
    requires
        canvas.holds(x, y),
        0 <= dx < scale,
        0 <= dy < scale,
    ensures
        upscale_ink(canvas, scale)(x * scale + dx, y * scale + dy) == Some(canvas.pixel(x, y)),
        0 <= x * scale + dx < canvas.spec_width() * scale,
        0 <= y * scale + dy < canvas.spec_height() * scale,
{
    lemma_fundamental_div_mod_converse(x * scale + dx, scale, x, dx);
    lemma_fundamental_div_mod_converse(y * scale + dy, scale, y, dy);
    assert(0 <= x * scale && x * scale + scale <= canvas.spec_width() * scale) by (nonlinear_arith)
        requires
            0 <= x < canvas.spec_width(),
            0 < scale,
    ;
    assert(0 <= y * scale && y * scale + scale <= canvas.spec_height() * scale) by (nonlinear_arith)
        requires
            0 <= y < canvas.spec_height(),
            0 < scale,
    ;
}

/// The part of a magnified canvas that a row-by-row sweep over the surface
/// has painted when it stands at `(x, y)`.
spec fn upscale_ink_upto(canvas: &Graphics, scale: int, x: int, y: int) -> spec_fn(int, int) -> Option<
    u32,
> {
    |px: int, py: int|
        if py < y || (py == y && px < x) {
            upscale_ink(canvas, scale)(px, py)
        } else {
            None
        }
}

/// The pixel buffer that the host shows, as large as its window, with the
/// factor by which the canvas is magnified onto it. The factor is fixed
/// when the surface is made.
pub struct Surface {
    frame: Graphics,
    scale: usize,
}

impl Surface {
    /// The pixels of the surface.
    pub closed spec fn frame(&self) -> Graphics {
        self.frame
    }

    /// The factor of magnification.
    pub closed spec fn factor(&self) -> int {
        self.scale as int
    }

    /// Whether this surface is `before` after presenting `canvas` to a
    /// window of `width` by `height` pixels: as large as the window, every
    /// pixel under the magnified canvas showing its logical pixel, and the
    /// others as they were, or zero if the size changed.
    pub open spec fn presented(&self, before: &Surface, canvas: &Graphics, width: int, height: int) -> bool {
        &&& self.factor() == before.factor()
        &&& self.frame().spec_width() == width
        &&& self.frame().spec_height() == height
        &&& self.frame()@.len() == width * height
        &&& forall|px: int, py: int|
            self.frame().holds(px, py) ==> #[trigger] self.frame().pixel(px, py) == match upscale_ink(
                canvas,
                self.factor(),
            )(px, py) {
                Some(c) => c,
                None => if before.frame().spec_width() == width && before.frame().spec_height()
                    == height {
                    before.frame().pixel(px, py)
                } else {
                    0
                },
            }
    }

    /// After a presentation every physical pixel of the block of `scale` by
    /// `scale` pixels anchored at `(x * scale, y * scale)` that lies on the
    /// surface has the color of the logical pixel `(x, y)`.
    pub proof fn lemma_presented_block(
        &self,
        before: &Surface,
        canvas: &Graphics,
        width: int,
        height: int,
        x: int,
        y: int,
        dx: int,
        dy: int,
    )
        requires
            self.presented(before, canvas, width, height),
            canvas.holds(x, y),
            0 <= dx < self.factor(),
            0 <= dy < self.factor(),
            self.frame().holds(x * self.factor() + dx, y * self.factor() + dy),
        ensures
            self.frame().pixel(x * self.factor() + dx, y * self.factor() + dy) == canvas.pixel(
                x,
                y,
            ),
    {
        lemma_block_shows_pixel(canvas, self.factor(), x, y, dx, dy);
    }

    /// A surface of `width` by `height` pixels, all zero, onto which a
    /// canvas is magnified `scale` times.
    pub fn new(width: usize, height: usize, scale: usize) -> (surface: Surface)
        requires
            width * height <= usize::MAX,
        ensures
            surface.factor() == scale,
            surface.frame().spec_width() == width,
            surface.frame().spec_height() == height,
            surface.frame()@ == Seq::new((width * height) as nat, |i: int| 0u32),
    {
        Surface { frame: Graphics::new(width, height), scale }
    }

    pub fn width(&self) -> (w: usize)
        ensures
            w == self.frame().spec_width(),
    {
        self.frame.width()
    }

    pub fn height(&self) -> (h: usize)
        ensures
            h == self.frame().spec_height(),
    {
        self.frame.height()
    }

    pub fn scale(&self) -> (s: usize)
        ensures
            s == self.factor(),
    {
        self.scale
    }

    /// Reads the physical pixel `(x, y)`; `None` outside the surface.
    pub fn get(&self, x: usize, y: usize) -> (p: Option<u32>)
        ensures
            p == if self.frame().holds(x as int, y as int) {
                Some(self.frame().pixel(x as int, y as int))
            } else {
                None
            },
    {
        self.frame.get(x, y)
    }

    /// The whole surface as a slice, row by row from the top left: what the
    /// host is handed to show.
    pub fn as_slice(&self) -> (s: &[u32])
        ensures
            s@ == self.frame()@,
            s@.len() == self.frame().spec_width() * self.frame().spec_height(),
    {
        self.frame.as_slice()
    }

    /// Presents `canvas` to a window of `width` by `height` pixels. If the
    /// surface has another size it is first replaced by one of the window's
    /// size, all zero. Then every logical pixel `(x, y)` is written to each
    /// physical pixel of the block of `scale` by `scale` pixels anchored
    /// at `(x * scale, y * scale)`, as far as the block lies on the surface.
    pub fn present(&mut self, canvas: &Graphics, width: usize, height: usize)
        requires
            width * height <= usize::MAX,
        ensures
            final(self).presented(old(self), canvas, width as int, height as int),
    {
        if self.frame.width() != width || self.frame.height() != height {
            self.frame = Graphics::new(width, height);
            proof {
                let w = width as int;
                let h = height as int;
                assert forall|px: int, py: int| self.frame.holds(px, py) implies #[trigger] self.frame.pixel(
                    px,
                    py,
                ) == 0 by {
                    lemma_cell_index(px, py, w, h);
                }
            }
        }
        let scale = self.scale;
        if scale == 0 {
            proof {
                self.frame.lemma_drawn_self();
            }
            return ;
        }
        let ghost base = self.frame;
        proof {
            self.frame.lemma_drawn_self();
            self.frame.lemma_drawn_alike(
                &base,
                blank(),
                upscale_ink_upto(canvas, scale as int, 0, 0),
            );
        }
        let mut py: usize = 0;
        while py < height
            invariant
                scale > 0,
                py <= height,
                self.scale == old(self).scale,
                base.spec_width() == width,
                base.spec_height() == height,
                self.frame.drawn(&base, upscale_ink_upto(canvas, scale as int, 0, py as int)),
            decreases height - py,
        {
            let ly: usize = py / scale;
            let mut px: usize = 0;
            while px < width
                invariant
                    scale > 0,
                    py < height,
                    px <= width,
                    ly == py / scale,
                    self.scale == old(self).scale,
                    base.spec_width() == width,
                    base.spec_height() == height,
                    self.frame.drawn(
                        &base,
                        upscale_ink_upto(canvas, scale as int, px as int, py as int),
                    ),
                decreases width - px,
            {
                let ghost prev = self.frame;
                let ghost so_far = upscale_ink_upto(canvas, scale as int, px as int, py as int);
                let ghost next = upscale_ink_upto(canvas, scale as int, px + 1, py as int);
                let lx: usize = px / scale;
                match canvas.get(lx, ly) {
                    Some(color) => {
                        self.frame.put(px, py, color);
                        proof {
                            let stamp = dot(px as int, py as int, color);
                            self.frame.lemma_drawn_twice(&prev, &base, so_far, stamp);
                            assert forall|x: int, y: int| self.frame.holds(x, y) implies #[trigger] over(
                                stamp,
                                so_far,
                            )(x, y) == next(x, y) by {}
                            self.frame.lemma_drawn_alike(
                                &base,
                                over(stamp, so_far),
                                next,
                            );
                        }
                    },
                    None => {
                        proof {
                            assert forall|x: int, y: int| self.frame.holds(x, y) implies #[trigger] so_far(
                                x,
                                y,
                            ) == next(x, y) by {}
                            self.frame.lemma_drawn_alike(&base, so_far, next);
                        }
                    },
                }
                px += 1;
            }
            proof {
                let so_far = upscale_ink_upto(canvas, scale as int, width as int, py as int);
                let next = upscale_ink_upto(canvas, scale as int, 0, py + 1);
                assert forall|x: int, y: int| self.frame.holds(x, y) implies #[trigger] so_far(x, y)
                    == next(x, y) by {}
                self.frame.lemma_drawn_alike(&base, so_far, next);
            }
            py += 1;
        }
        proof {
            let so_far = upscale_ink_upto(canvas, scale as int, 0, height as int);
            let whole = upscale_ink(canvas, scale as int);
            assert forall|x: int, y: int| self.frame.holds(x, y) implies #[trigger] so_far(x, y)
                == whole(x, y) by {}
            self.frame.lemma_drawn_alike(&base, so_far, whole);
        }
    }
}

} // verus!
