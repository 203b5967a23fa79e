//! Procedural test-pattern generation: a deterministic gradient over the
//! extent, with a highlighted border line every `BORDER_ZONE` pixels.
//! Used for visual self-tests; every channel is an exact integer function
//! of the coordinates and the extent.

use vstd::prelude::*;

use crate::color::SKIDColor;
use crate::image::{SKIDImage, SKIDSizeVector2, lemma_row_major_index, lemma_row_index_lt, lemma_row_step};
use crate::resize::MAX_DIM;

verus! {

/// A highlighted border line runs along every coordinate divisible by
/// this period.
pub const BORDER_ZONE: usize = 1024;

/// The color the pattern writes at `(x, y)`: red grows with x, green with
/// y, blue falls off towards the lower right, and border lines drop blue
/// to zero. Alpha is fully opaque.
pub open spec fn example_pixel(w: int, h: int, x: int, y: int) -> SKIDColor {
    let r = 255 * x / w;
    let g = 255 * y / h;
    let base = 255 * x / (2 * w) + 255 * y / (2 * h);
    let bb: int = if x % (BORDER_ZONE as int) == 0 || y % (BORDER_ZONE as int) == 0 {
        255
    } else {
        base
    };
    SKIDColor { r: r as u8, g: g as u8, b: (255 - bb) as u8, a: 255 }
}

/// Every channel of the pattern is a byte.
proof fn lemma_example_channels(w: int, h: int, x: int, y: int)
    requires
        0 <= x < w,
        0 <= y < h,
    ensures
        0 <= 255 * x / w <= 255,
        0 <= 255 * y / h <= 255,
        0 <= 255 * x / (2 * w) <= 127,
        0 <= 255 * y / (2 * h) <= 127,
{
    assert(0 <= 255 * x / w <= 255 && 0 <= 255 * x / (2 * w) <= 127) by (nonlinear_arith)
        requires
            0 <= x < w,
    ;
    assert(0 <= 255 * y / h <= 255 && 0 <= 255 * y / (2 * h) <= 127) by (nonlinear_arith)
        requires
            0 <= y < h,
    ;
}

/// One pixel of the pattern.
fn example_sample(w: usize, h: usize, x: usize, y: usize) -> (c: SKIDColor)
    requires
        x < w <= MAX_DIM,
        y < h <= MAX_DIM,
    ensures
        c == example_pixel(w as int, h as int, x as int, y as int),
{
    proof {
        lemma_example_channels(w as int, h as int, x as int, y as int);
    }
    let r: u8 = ((255 * (x as u64)) / (w as u64)) as u8;
    let g: u8 = ((255 * (y as u64)) / (h as u64)) as u8;
    let base: u64 = (255 * (x as u64)) / (2 * (w as u64)) + (255 * (y as u64)) / (2 * (h as u64));
    let bb: u64 = if x % BORDER_ZONE == 0 || y % BORDER_ZONE == 0 {
        255
    } else {
        base
    };
    SKIDColor { r, g, b: (255 - bb) as u8, a: 255 }
}

/// Generates the test pattern at the given extent; every pixel follows
/// the pattern formula exactly.
pub fn generate_example_image(size: SKIDSizeVector2) -> (out: SKIDImage)
    requires
        size.width <= MAX_DIM,
        size.height <= MAX_DIM,
        size.width * size.height <= usize::MAX,
    ensures
        out.wf(),
        out.spec_width() == size.width,
        out.spec_height() == size.height,
        forall|x: int, y: int|
            out.in_bounds(x, y) ==> out.pixel_at(x, y) == example_pixel(
                size.width as int,
                size.height as int,
                x,
                y,
            ),
{
    let w = size.width;
    let h = size.height;
    let mut data: Vec<SKIDColor> = Vec::new();
    let mut y: usize = 0;
    while y < h
        invariant
            w == size.width,
            h == size.height,
            w <= MAX_DIM,
            h <= MAX_DIM,
            w * h <= usize::MAX,
            y <= h,
            data@.len() == y * w,
            forall|py: int, px: int|
                0 <= py < y && 0 <= px < w ==> data@[py * w + px] == example_pixel(
                    w as int,
                    h as int,
                    px,
                    py,
                ),
        decreases h - y,
    {
        let mut x: usize = 0;
        while x < w
            invariant
                w == size.width,
                h == size.height,
                w <= MAX_DIM,
                h <= MAX_DIM,
                w * h <= usize::MAX,
                y < h,
                x <= w,
                data@.len() == y * w + x,
                forall|py: int, px: int|
                    0 <= py < y && 0 <= px < w ==> data@[py * w + px] == example_pixel(
                        w as int,
                        h as int,
                        px,
                        py,
                    ),
                forall|px: int|
                    0 <= px < x ==> data@[y * w + px] == example_pixel(
                        w as int,
                        h as int,
                        px,
                        y as int,
                    ),
            decreases w - x,
        {
            proof {
                lemma_row_major_index(x as int, y as int, w as int, h as int);
            }
            let c = example_sample(w, h, x, y);
            let ghost pre = data@;
            data.push(c);
            proof {
                assert forall|py: int, px: int|
                    0 <= py < y && 0 <= px < w implies data@[py * w + px] == example_pixel(
                    w as int,
                    h as int,
                    px,
                    py,
                ) by {
                    lemma_row_index_lt(py, px, y as int, w as int);
                    assert(data@[py * w + px] == pre[py * w + px]);
                }
                assert forall|px: int|
                    0 <= px < x + 1 implies data@[y * w + px] == example_pixel(
                    w as int,
                    h as int,
                    px,
                    y as int,
                ) by {
                    if px < x {
                        assert(data@[y * w + px] == pre[y * w + px]);
                    } else {
                        assert(data@[y * w + px] == c);
                    }
                }
            }
            x = x + 1;
        }
        proof {
            lemma_row_step(y as int, w as int);
            assert forall|py: int, px: int|
                0 <= py < y + 1 && 0 <= px < w implies data@[py * w + px] == example_pixel(
                w as int,
                h as int,
                px,
                py,
            ) by {
                if py < y {
                    assert(data@[py * w + px] == example_pixel(w as int, h as int, px, py));
                } else {
                    assert(data@[py * w + px] == example_pixel(w as int, h as int, px, py));
                }
            }
        }
        y = y + 1;
    }
    proof {
        assert(data@.len() == w * h) by (nonlinear_arith)
            requires
                data@.len() == (h as int) * (w as int),
        ;
    }
    SKIDImage::from_1d_data(size, data)
}

} // verus!
