//! Pixel colours in `0x00RRGGBB` form.
use vstd::prelude::*;

verus! {

/// The pixel with red `r`, green `g` and blue `b`.
pub open spec fn spec_rgb(r: int, g: int, b: int) -> int {
    r * 65536 + g * 256 + b
}

/// The red channel of a pixel.
pub open spec fn red(p: u32) -> u32 {
    (p >> 16u32) & 0xFFu32
}

/// The green channel of a pixel.
pub open spec fn green(p: u32) -> u32 {
    (p >> 8u32) & 0xFFu32
}

/// The blue channel of a pixel.
pub open spec fn blue(p: u32) -> u32 {
    p & 0xFFu32
}

/// The negative of a pixel: each channel `c` becomes `255 - c` (bits above the
/// blue, green and red bytes are dropped).
pub open spec fn invert_pixel(p: u32) -> u32 {
    spec_rgb(255 - red(p), 255 - green(p), 255 - blue(p)) as u32
}

/// Packs three 8-bit channels into one `0x00RRGGBB` pixel.
pub fn rgb(r: u8, g: u8, b: u8) -> (c: u32)
    ensures
        c == spec_rgb(r as int, g as int, b as int),
        red(c) == r,
        green(c) == g,
        blue(c) == b,
{
    let c = ((r as u32) << 16) | ((g as u32) << 8) | (b as u32);
    assert(c == r * 65536 + g * 256 + b && (c >> 16u32) & 0xFFu32 == r && (c >> 8u32) & 0xFFu32 == g
        && c & 0xFFu32 == b) by (bit_vector)
        requires
            c == ((r as u32) << 16) | ((g as u32) << 8) | (b as u32),
    ;
    c
}

/// The negative of one pixel.
fn invert_one(p: u32) -> (q: u32)
    ensures
        q == invert_pixel(p),
{
    assert((p >> 16u32) & 0xFFu32 <= 255 && (p >> 8u32) & 0xFFu32 <= 255 && p & 0xFFu32 <= 255)
        by (bit_vector);
    let r = 255 - ((p >> 16) & 0xFF);
    let g = 255 - ((p >> 8) & 0xFF);
    let b = 255 - (p & 0xFF);
    let q = (r << 16) | (g << 8) | b;
    assert(q == r * 65536 + g * 256 + b) by (bit_vector)
        requires
            q == (r << 16u32) | (g << 8u32) | b,
            r <= 255,
            g <= 255,
            b <= 255,
    ;
    q
}

/// Turns every pixel of the buffer into its negative (the "inverted world" effect).
pub fn invert_colors(buffer: &mut [u32])
    ensures
        final(buffer)@ == old(buffer)@.map_values(|p: u32| invert_pixel(p)),
{
    let ghost old_buf = buffer@;
    let n = buffer.len();
    let mut i: usize = 0;
    while i < n
        invariant
            n == old_buf.len(),
            buffer@.len() == n,
            0 <= i <= n,
            forall|j: int| 0 <= j < i ==> buffer@[j] == invert_pixel(old_buf[j]),
            forall|j: int| i <= j < n ==> buffer@[j] == old_buf[j],
        decreases n - i,
    {
        let q = invert_one(buffer[i]);
        buffer[i] = q;
        i = i + 1;
    }
    assert(buffer@ =~= old_buf.map_values(|p: u32| invert_pixel(p)));
}

/// Inverting a colour twice gives it back.
pub proof fn lemma_invert_pixel_twice(p: u32)
    requires
        p <= 0xFFFFFF,
    ensures
        invert_pixel(invert_pixel(p)) == p,
{
    assert((p >> 16u32) & 0xFFu32 <= 255 && (p >> 8u32) & 0xFFu32 <= 255 && p & 0xFFu32 <= 255)
        by (bit_vector);
    let q = invert_pixel(p);
    assert(q == (255 - ((p >> 16u32) & 0xFFu32)) * 65536 + (255 - ((p >> 8u32) & 0xFFu32)) * 256 + (
    255 - (p & 0xFFu32)));
    assert(((q >> 16u32) & 0xFFu32) == 255 - ((p >> 16u32) & 0xFFu32) && ((q >> 8u32) & 0xFFu32)
        == 255 - ((p >> 8u32) & 0xFFu32) && (q & 0xFFu32) == 255 - (p & 0xFFu32)) by (bit_vector)
        requires
            q == (255 - ((p >> 16u32) & 0xFFu32)) * 65536 + (255 - ((p >> 8u32) & 0xFFu32)) * 256 + (
            255 - (p & 0xFFu32)),
    ;
    assert(p == ((p >> 16u32) & 0xFFu32) * 65536 + ((p >> 8u32) & 0xFFu32) * 256 + (p & 0xFFu32))
        by (bit_vector)
        requires
            p <= 0xFFFFFF,
    ;
}

/// Inverting the whole screen twice restores it, as long as every pixel is a plain
/// `0x00RRGGBB` colour: hitting the target twice brings the normal colours back.
pub proof fn lemma_invert_twice(frame: Seq<u32>)
    requires
        forall|i: int| 0 <= i < frame.len() ==> frame[i] <= 0xFFFFFF,
    ensures
        frame.map_values(|p: u32| invert_pixel(p)).map_values(|p: u32| invert_pixel(p)) == frame,
{
    assert forall|i: int| 0 <= i < frame.len() implies invert_pixel(invert_pixel(frame[i]))
        == frame[i] by {
        lemma_invert_pixel_twice(frame[i]);
    }
    assert(frame.map_values(|p: u32| invert_pixel(p)).map_values(|p: u32| invert_pixel(p)) =~= frame);
}

} // verus!
