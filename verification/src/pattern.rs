//! A test card for a window: an XOR texture, with an optional white
//! rectangle inset by 100 pixels from every edge.

use vstd::prelude::*;

verus! {

/// The color of the XOR texture at `(x, y)`: red from the low eight bits of
/// both coordinates, green from the low seven, blue from the low six.
pub open spec fn texture_color(x: usize, y: usize) -> u32 {
    let red = (x & 0xff) ^ (y & 0xff);
    let green = (x & 0x7f) ^ (y & 0x7f);
    let blue = (x & 0x3f) ^ (y & 0x3f);
    (blue | (green << 8) | (red << 16)) as u32
}

/// The color of the test card at position `index` of a buffer that holds
/// rows of `width` pixels: white inside the inset rectangle when `flag` is
/// set, the texture elsewhere.
pub open spec fn card_color(index: int, width: int, height: int, flag: bool) -> u32 {
    let x = index % width;
    let y = index / width;
    if flag && 100 <= x < width - 100 && 100 <= y < height - 100 {
        0x00ff_ffff
    } else {
        texture_color(x as usize, y as usize)
    }
}

/// Fills `buffer` with the test card for a window of `width` by `height`
/// pixels. The buffer is read as rows of `width` pixels whatever its
/// length, so a buffer that holds anything needs a width above zero.
pub fn redraw(buffer: &mut [u32], width: usize, height: usize, flag: bool)
    requires
        old(buffer)@.len() > 0 ==> width > 0,
    ensures
        final(buffer)@.len() == old(buffer)@.len(),
        forall|i: int|
            0 <= i < final(buffer)@.len() ==> #[trigger] final(buffer)@[i] == card_color(
                i,
                width as int,
                height as int,
                flag,
            ),
{
    let n: usize = buffer.len();
    let mut index: usize = 0;
    while index < n
        invariant
            index <= n,
            n == buffer@.len(),
            n == old(buffer)@.len(),
            n > 0 ==> width > 0,
            forall|i: int|
                0 <= i < index ==> #[trigger] buffer@[i] == card_color(
                    i,
                    width as int,
                    height as int,
                    flag,
                ),
        decreases n - index,
    {
        let y: usize = index / width;
        let x: usize = index % width;
        if flag && x >= 100 && width >= 100 && x < width - 100 && y >= 100 && height >= 100 && y
            < height - 100 {
            buffer[index] = 0x00ff_ffff;
        } else {
            let red: usize = (x & 0xff) ^ (y & 0xff);
            let green: usize = (x & 0x7f) ^ (y & 0x7f);
            let blue: usize = (x & 0x3f) ^ (y & 0x3f);
            assert((blue | (green << 8) | (red << 16)) <= 0xff_ffff) by (bit_vector)
                requires
                    red == (x & 0xff) ^ (y & 0xff),
                    green == (x & 0x7f) ^ (y & 0x7f),
                    blue == (x & 0x3f) ^ (y & 0x3f),
            ;
            buffer[index] = (blue | (green << 8) | (red << 16)) as u32;
        }
        index += 1;
    }
}

} // verus!
