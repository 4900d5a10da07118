//! Packed 24-bit RGB colors, one `u32` per pixel: red in bits 16 to 23,
//! green in bits 8 to 15, blue in bits 0 to 7. The high byte is unused.

use vstd::prelude::*;

verus! {

/// The packed color of three channel values.
pub open spec fn rgb(red: u32, green: u32, blue: u32) -> u32 {
    red << 16 | green << 8 | blue
}

/// The red, green and blue channels of a packed color.
pub open spec fn rgb_channels(color: u32) -> (u32, u32, u32) {
    (color >> 16 & 0xff, color >> 8 & 0xff, color & 0xff)
}

/// Packs three channel values into one color. Channel values above 255 are
/// not masked: their high bits run into the next channel.
pub fn pack(red: u32, green: u32, blue: u32) -> (color: u32)
    ensures
        color == rgb(red, green, blue),
{
    red << 16 | green << 8 | blue
}

/// Splits a packed color into its red, green and blue channels, each in
/// `0..=255`.
pub fn channels(color: u32) -> (c: (u32, u32, u32))
    ensures
        c == rgb_channels(color),
        c.0 <= 255,
        c.1 <= 255,
        c.2 <= 255,
{
    assert(color >> 16 & 0xff <= 255 && color >> 8 & 0xff <= 255 && color & 0xff <= 255)
        by (bit_vector);
    (color >> 16 & 0xff, color >> 8 & 0xff, color & 0xff)
}

/// Packing channels of at most 255 and splitting the color again gives the
/// channels back, and the color stays within 24 bits.
pub proof fn lemma_pack_channels(red: u32, green: u32, blue: u32)
    requires
        red <= 255,
        green <= 255,
        blue <= 255,
    ensures
        rgb_channels(rgb(red, green, blue)) == (red, green, blue),
        rgb(red, green, blue) <= 0xff_ffff,
        rgb(red, green, blue) == red * 65536 + green * 256 + blue,
{
    assert((red << 16 | green << 8 | blue) >> 16 & 0xff == red && (red << 16 | green << 8 | blue)
        >> 8 & 0xff == green && (red << 16 | green << 8 | blue) & 0xff == blue && (red << 16 | green
        << 8 | blue) <= 0xff_ffff && (red << 16 | green << 8 | blue) == red * 65536 + green * 256
        + blue) by (bit_vector)
        requires
            red <= 255,
            green <= 255,
            blue <= 255,
    ;
}

/// Splitting a color of at most 24 bits and packing the channels gives the
/// color back.
pub proof fn lemma_channels_pack(color: u32)
    requires
        color <= 0xff_ffff,
    ensures
        ({
            let (red, green, blue) = rgb_channels(color);
            rgb(red, green, blue) == color
        }),
{
    assert(((color >> 16 & 0xff) << 16 | (color >> 8 & 0xff) << 8 | color & 0xff) == color)
        by (bit_vector)
        requires
            color <= 0xff_ffff,
    ;
}

} // verus!
