//! Sprites: a decoded RGBA image cut into equal-width animation frames laid
//! side by side.
//!
//! The image is kept as an `image::RgbaImage`. Verus does not read the
//! `image` crate: what this module states of it is taken on trust, and says
//! no more than how the image is made from raw bytes, its size, and which
//! pixel `get_pixel` hands out.

use vstd::prelude::*;
use crate::color::rgb;
use crate::geometry::Point;

verus! {

/// The decoded image of a sprite: an `image::RgbaImage`, whose inside Verus
/// does not see.
#[verifier::external_body]
pub struct Sheet {
    img: image::RgbaImage,
}

/// The width of a sheet in pixels.
pub uninterp spec fn sheet_width(sheet: Sheet) -> u32;

/// The height of a sheet in pixels.
pub uninterp spec fn sheet_height(sheet: Sheet) -> u32;

/// The pixels of a sheet by `(x, y)`, each as red, green, blue and alpha.
pub uninterp spec fn sheet_pixels(sheet: Sheet) -> Map<(int, int), (u8, u8, u8, u8)>;

/// The pixel `(x, y)` of an image `width` pixels wide that is stored as raw
/// bytes: four bytes a pixel, red first, row by row from the top left.
pub open spec fn raw_pixel(data: Seq<u8>, width: int, x: int, y: int) -> (u8, u8, u8, u8) {
    let at = (y * width + x) * 4;
    (data[at], data[at + 1], data[at + 2], data[at + 3])
}

/// Makes a sheet from raw bytes with `image::RgbaImage::from_raw`. Taken on
/// trust: the call succeeds just when the bytes suffice for `width` by
/// `height` pixels of four bytes, and the sheet then has that size and
/// holds the pixels in row-major order.
#[verifier::external_body]
fn sheet_from_raw(width: u32, height: u32, data: Vec<u8>) -> (made: Option<Sheet>)
    ensures
        made is Some <==> 4 * width * height <= data@.len(),
        made matches Some(sheet) ==> {
            &&& sheet_width(sheet) == width
            &&& sheet_height(sheet) == height
            &&& forall|x: int, y: int|
                0 <= x < width && 0 <= y < height ==> #[trigger] sheet_pixels(sheet)[(x, y)]
                    == raw_pixel(data@, width as int, x, y)
        },
{
    match image::RgbaImage::from_raw(width, height, data) {
        Some(img) => Some(Sheet { img }),
        None => None,
    }
}

/// Reads a sheet's width with `ImageBuffer::width`. Taken on trust: the
/// result is the width named `sheet_width`.
#[verifier::external_body]
fn sheet_get_width(sheet: &Sheet) -> (w: u32)
    ensures
        w == sheet_width(*sheet),
{
    sheet.img.width()
}

/// Reads a sheet's height with `ImageBuffer::height`. Taken on trust: the
/// result is the height named `sheet_height`.
#[verifier::external_body]
fn sheet_get_height(sheet: &Sheet) -> (h: u32)
    ensures
        h == sheet_height(*sheet),
{
    sheet.img.height()
}

/// Reads one pixel with `ImageBuffer::get_pixel`, which panics outside the
/// image. Taken on trust: within the image the result is the pixel named
/// `sheet_pixels` at `(x, y)`.
#[verifier::external_body]
fn sheet_get_pixel(sheet: &Sheet, x: u32, y: u32) -> (p: (u8, u8, u8, u8))
    requires
        x < sheet_width(*sheet),
        y < sheet_height(*sheet),
    ensures
        p == sheet_pixels(*sheet)[(x as int, y as int)],
{
    let pixel = sheet.img.get_pixel(x, y);
    (pixel.0[0], pixel.0[1], pixel.0[2], pixel.0[3])
}

/// An image divided into equal-width frames, with the offset of the point
/// that a drawing position anchors.
pub struct Sprite {
    sheet: Sheet,
    center: Point,
    frames: usize,
}

impl Sprite {
    #[verifier::type_invariant]
    spec fn well_formed(&self) -> bool {
        self.frames > 0
    }

    /// The image that holds the frames.
    pub closed spec fn sheet(&self) -> Sheet {
        self.sheet
    }

    /// The anchor, in pixels from the top left corner of a frame.
    pub closed spec fn anchor(&self) -> Point {
        self.center
    }

    /// The number of frames.
    pub closed spec fn frame_count(&self) -> nat {
        self.frames as nat
    }

    /// The width of one frame: the image's width divided by the number of
    /// frames, rounded down.
    pub open spec fn frame_width(&self) -> nat {
        sheet_width(self.sheet()) as nat / self.frame_count()
    }

    /// The height of every frame.
    pub open spec fn frame_height(&self) -> nat {
        sheet_height(self.sheet()) as nat
    }

    /// The pixel `(i, j)` of the frame that `frame` selects. Frames wrap
    /// around: `frame` counts modulo the number of frames.
    pub open spec fn texel(&self, frame: nat, i: int, j: int) -> (u8, u8, u8, u8) {
        sheet_pixels(self.sheet())[(i + self.frame_width() * (frame % self.frame_count()), j)]
    }

    /// The ink of the frame that `frame` selects, drawn with the anchor at
    /// `pos`. Alpha is a mask: a pixel of alpha zero paints nothing, any
    /// other paints its red, green and blue.
    pub open spec fn ink(&self, pos: Point, frame: nat) -> spec_fn(int, int) -> Option<u32> {
        |px: int, py: int|
            {
                let i = px - pos.x + self.anchor().x;
                let j = py - pos.y + self.anchor().y;
                let t = self.texel(frame, i, j);
                if 0 <= i < self.frame_width() && 0 <= j < self.frame_height() && t.3 != 0 {
                    Some(rgb(t.0 as u32, t.1 as u32, t.2 as u32))
                } else {
                    None
                }
            }
    }

    /// A sprite of `frames` frames over an image of `width` by `height`
    /// pixels, given as raw RGBA bytes in row-major order, anchored at
    /// `center`. `None` if there are no frames or too few bytes.
    pub fn from_image(width: u32, height: u32, rgba: Vec<u8>, center: Point, frames: usize) -> (made:
        Option<Sprite>)
        ensures
            made is Some <==> frames > 0 && 4 * width * height <= rgba@.len(),
            made matches Some(sprite) ==> {
                &&& sprite.anchor() == center
                &&& sprite.frame_count() == frames
                &&& sheet_width(sprite.sheet()) == width
                &&& sheet_height(sprite.sheet()) == height
                &&& forall|x: int, y: int|
                    0 <= x < width && 0 <= y < height ==> #[trigger] sheet_pixels(sprite.sheet())[(
                        x,
                        y,
                    )] == raw_pixel(rgba@, width as int, x, y)
            },
    {
        if frames == 0 {
            return None;
        }
        match sheet_from_raw(width, height, rgba) {
            Some(sheet) => Some(Sprite { sheet, center, frames }),
            None => None,
        }
    }

    /// The number of frames; never zero.
    pub fn frames(&self) -> (n: usize)
        ensures
            n == self.frame_count(),
            n > 0,
    {
        proof {
            use_type_invariant(self);
        }
        self.frames
    }

    /// The anchor, in pixels from the top left corner of a frame.
    pub fn center(&self) -> (p: Point)
        ensures
            p == self.anchor(),
    {
        self.center
    }

    /// The width of the whole image in pixels.
    pub fn width(&self) -> (w: u32)
        ensures
            w == sheet_width(self.sheet()),
    {
        sheet_get_width(&self.sheet)
    }

    /// The height of the image, and of every frame, in pixels.
    pub fn height(&self) -> (h: u32)
        ensures
            h == sheet_height(self.sheet()),
    {
        sheet_get_height(&self.sheet)
    }

    /// The pixel `(x, y)` of the whole image as red, green, blue and alpha;
    /// `None` outside the image.
    pub fn get(&self, x: u32, y: u32) -> (p: Option<(u8, u8, u8, u8)>)
        ensures
            p == if x < sheet_width(self.sheet()) && y < sheet_height(self.sheet()) {
                Some(sheet_pixels(self.sheet())[(x as int, y as int)])
            } else {
                None
            },
    {
        if x < sheet_get_width(&self.sheet) && y < sheet_get_height(&self.sheet) {
            Some(sheet_get_pixel(&self.sheet, x, y))
        } else {
            None
        }
    }
}

} // verus!
