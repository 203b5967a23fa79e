//! Image resizing kernels.
//!
//! Downscales (and same-size requests) use nearest-neighbor sampling:
//! output pixel `(x, y)` copies the input pixel at
//! `(x * old_width / new_width, y * old_height / new_height)` with integer
//! truncation. Upscales use bilinear interpolation: the output pixel center
//! is mapped to a fractional source coordinate, the four surrounding source
//! pixels (clamped to the image bounds) are blended by the fractional
//! weights, and the blend is computed in exact rational arithmetic over the
//! common denominator `2 * new_width` (resp. height), rounding down once at
//! the end.

use vstd::prelude::*;

use crate::color::SKIDColor;
use crate::image::{SKIDImage, SKIDSizeVector2, lemma_row_major_index, lemma_row_index_lt, lemma_row_step};

verus! {

/// Dimensions at or below this bound keep all kernel index arithmetic
/// inside `u64` and every blend term inside `u128`.
pub const MAX_DIM: usize = 0x7FFF_FFFF;

/// The source coordinate sampled by nearest-neighbor resizing.
pub open spec fn nearest_src(c: int, src_dim: int, dst_dim: int) -> int {
    c * src_dim / dst_dim
}

/// The color a nearest-neighbor resize writes at output pixel `(x, y)`.
pub open spec fn nearest_pixel(img: SKIDImage, nw: int, nh: int, x: int, y: int) -> SKIDColor {
    img.pixel_at(
        nearest_src(x, img.spec_width() as int, nw),
        nearest_src(y, img.spec_height() as int, nh),
    )
}

/// The common denominator of the bilinear source mapping along one axis.
pub open spec fn bl_den(dst: int) -> int {
    2 * dst
}

/// The numerator of the fractional source coordinate of output cell `c`:
/// `(c + 1/2) * src / dst - 1/2` over the denominator `2 * dst`, clamped
/// at zero so the left and top edges never sample outside the image.
pub open spec fn bl_num(c: int, src: int, dst: int) -> int {
    let n = (2 * c + 1) * src - dst;
    if n < 0 {
        0
    } else {
        n
    }
}

/// The integer part of the fractional source coordinate: the first of the
/// two source cells blended along this axis.
pub open spec fn bl_base(c: int, src: int, dst: int) -> int {
    bl_num(c, src, dst) / bl_den(dst)
}

/// The fractional part of the source coordinate, as a numerator over
/// `bl_den(dst)`: the interpolation weight of the second source cell.
pub open spec fn bl_frac(c: int, src: int, dst: int) -> int {
    bl_num(c, src, dst) % bl_den(dst)
}

/// The second of the two source cells blended along this axis, clamped to
/// the last cell of the image.
pub open spec fn bl_next(c: int, src: int, dst: int) -> int {
    if bl_base(c, src, dst) + 1 < src - 1 {
        bl_base(c, src, dst) + 1
    } else {
        src - 1
    }
}

/// One channel of the bilinear blend: the four corner channels weighted by
/// the fractional parts over the common denominator `dx * dy`, rounded
/// down.
pub open spec fn bl_blend(
    c00: int,
    c10: int,
    c01: int,
    c11: int,
    tx: int,
    dx: int,
    ty: int,
    dy: int,
) -> int {
    (c00 * (dx - tx) * (dy - ty) + c10 * tx * (dy - ty) + c01 * (dx - tx) * ty + c11 * tx * ty) / (
    dx * dy)
}

/// The color a bilinear resize writes at output pixel `(x, y)`.
pub open spec fn bilinear_pixel(img: SKIDImage, nw: int, nh: int, x: int, y: int) -> SKIDColor {
    let w = img.spec_width() as int;
    let h = img.spec_height() as int;
    let x0 = bl_base(x, w, nw);
    let x1 = bl_next(x, w, nw);
    let tx = bl_frac(x, w, nw);
    let dx = bl_den(nw);
    let y0 = bl_base(y, h, nh);
    let y1 = bl_next(y, h, nh);
    let ty = bl_frac(y, h, nh);
    let dy = bl_den(nh);
    let c00 = img.pixel_at(x0, y0);
    let c10 = img.pixel_at(x1, y0);
    let c01 = img.pixel_at(x0, y1);
    let c11 = img.pixel_at(x1, y1);
    SKIDColor {
        r: bl_blend(c00.r as int, c10.r as int, c01.r as int, c11.r as int, tx, dx, ty, dy) as u8,
        g: bl_blend(c00.g as int, c10.g as int, c01.g as int, c11.g as int, tx, dx, ty, dy) as u8,
        b: bl_blend(c00.b as int, c10.b as int, c01.b as int, c11.b as int, tx, dx, ty, dy) as u8,
        a: bl_blend(c00.a as int, c10.a as int, c01.a as int, c11.a as int, tx, dx, ty, dy) as u8,
    }
}

/// The nearest-neighbor source coordinate lies inside the source axis.
pub proof fn lemma_nearest_src_in_range(c: int, src_dim: int, dst_dim: int)
    requires
        0 <= c < dst_dim,
        1 <= src_dim,
    ensures
        0 <= nearest_src(c, src_dim, dst_dim) < src_dim,
{
    assert(0 <= c * src_dim / dst_dim < src_dim) by (nonlinear_arith)
        requires
            0 <= c < dst_dim,
            1 <= src_dim,
    ;
}

/// The bilinear base cell lies inside the source axis, and the fractional
/// weight lies below the denominator.
pub proof fn lemma_bl_parts_in_range(c: int, src: int, dst: int)
    requires
        0 <= c < dst,
        1 <= src,
    ensures
        0 <= bl_base(c, src, dst) < src,
        0 <= bl_base(c, src, dst) <= bl_next(c, src, dst) < src,
        0 <= bl_frac(c, src, dst) < bl_den(dst),
{
    let n = bl_num(c, src, dst);
    assert(0 <= n < bl_den(dst) * src) by (nonlinear_arith)
        requires
            0 <= c < dst,
            1 <= src,
            n == bl_num(c, src, dst),
    ;
    assert(0 <= n / bl_den(dst) < src && 0 <= n % bl_den(dst) < bl_den(dst)) by (nonlinear_arith)
        requires
            0 <= n < bl_den(dst) * src,
            bl_den(dst) == 2 * dst,
            1 <= dst,
    ;
}

/// The bilinear blend of byte channels is again a byte: the weights sum to
/// exactly the denominator.
pub proof fn lemma_bl_blend_byte(c00: int, c10: int, c01: int, c11: int, tx: int, dx: int, ty: int, dy: int)
    requires
        0 <= c00 <= 255,
        0 <= c10 <= 255,
        0 <= c01 <= 255,
        0 <= c11 <= 255,
        0 <= tx < dx,
        0 <= ty < dy,
    ensures
        0 <= bl_blend(c00, c10, c01, c11, tx, dx, ty, dy) <= 255,
{
    assert(0 <= bl_blend(c00, c10, c01, c11, tx, dx, ty, dy) <= 255) by (nonlinear_arith)
        requires
            0 <= c00 <= 255,
            0 <= c10 <= 255,
            0 <= c01 <= 255,
            0 <= c11 <= 255,
            0 <= tx < dx,
            0 <= ty < dy,
    ;
}

/// One blend term stays far inside 128 bits.
proof fn lemma_blend_term_bound(c: int, a: int, b: int)
    requires
        0 <= c <= 255,
        0 <= a <= 0x1_0000_0000,
        0 <= b <= 0x1_0000_0000,
    ensures
        0 <= c * a <= 0xFF_0000_0000,
        0 <= c * a * b <= 0xFF_0000_0000_0000_0000,
{
    assert(0 <= c * a <= 0xFF_0000_0000 && 0 <= c * a * b <= 0xFF_0000_0000_0000_0000)
        by (nonlinear_arith)
        requires
            0 <= c <= 255,
            0 <= a <= 0x1_0000_0000,
            0 <= b <= 0x1_0000_0000,
    ;
}

/// One channel of the bilinear blend, computed exactly in 128-bit
/// arithmetic.
fn blend_channel(c00: u8, c10: u8, c01: u8, c11: u8, tx: u64, dx: u64, ty: u64, dy: u64) -> (v: u8)
    requires
        tx < dx,
        ty < dy,
        dx <= 0x1_0000_0000,
        dy <= 0x1_0000_0000,
    ensures
        v == bl_blend(c00 as int, c10 as int, c01 as int, c11 as int, tx as int, dx as int, ty as int, dy as int),
{
    proof {
        lemma_bl_blend_byte(c00 as int, c10 as int, c01 as int, c11 as int, tx as int, dx as int, ty as int, dy as int);
        lemma_blend_term_bound(c00 as int, (dx - tx) as int, (dy - ty) as int);
        lemma_blend_term_bound(c10 as int, tx as int, (dy - ty) as int);
        lemma_blend_term_bound(c01 as int, (dx - tx) as int, ty as int);
        lemma_blend_term_bound(c11 as int, tx as int, ty as int);
        lemma_blend_term_bound(255, dx as int, dy as int);
        assert(1 <= (dx as int) * (dy as int) <= 0x1_0000_0000_0000_0000) by (nonlinear_arith)
            requires
                1 <= dx <= 0x1_0000_0000,
                1 <= dy <= 0x1_0000_0000,
        ;
    }
    let wx1: u128 = tx as u128;
    let wx0: u128 = (dx - tx) as u128;
    let wy1: u128 = ty as u128;
    let wy0: u128 = (dy - ty) as u128;
    let sum: u128 = (c00 as u128) * wx0 * wy0 + (c10 as u128) * wx1 * wy0 + (c01 as u128) * wx0
        * wy1 + (c11 as u128) * wx1 * wy1;
    let den: u128 = (dx as u128) * (dy as u128);
    (sum / den) as u8
}

/// One output pixel of the bilinear upscale.
fn bilinear_sample(img: &SKIDImage, nw: usize, nh: usize, x: usize, y: usize) -> (c: SKIDColor)
    requires
        img.wf(),
        1 <= img.spec_width() <= MAX_DIM,
        1 <= img.spec_height() <= MAX_DIM,
        x < nw <= MAX_DIM,
        y < nh <= MAX_DIM,
    ensures
        c == bilinear_pixel(*img, nw as int, nh as int, x as int, y as int),
{
    let w = img.width();
    let h = img.height();
    proof {
        lemma_bl_parts_in_range(x as int, w as int, nw as int);
        lemma_bl_parts_in_range(y as int, h as int, nh as int);
        assert((2 * (x as int) + 1) * (w as int) <= 0x8000_0000_0000_0000) by (nonlinear_arith)
            requires
                x < nw <= 0x7FFF_FFFF,
                w <= 0x7FFF_FFFF,
        ;
        assert((2 * (y as int) + 1) * (h as int) <= 0x8000_0000_0000_0000) by (nonlinear_arith)
            requires
                y < nh <= 0x7FFF_FFFF,
                h <= 0x7FFF_FFFF,
        ;
    }
    let den_x: u64 = 2 * (nw as u64);
    let t_x: u64 = (2 * (x as u64) + 1) * (w as u64);
    let num_x: u64 = if t_x >= nw as u64 {
        t_x - nw as u64
    } else {
        0
    };
    let x0: usize = (num_x / den_x) as usize;
    let tx: u64 = num_x % den_x;
    let x1: usize = if x0 + 1 < w - 1 {
        x0 + 1
    } else {
        w - 1
    };
    let den_y: u64 = 2 * (nh as u64);
    let t_y: u64 = (2 * (y as u64) + 1) * (h as u64);
    let num_y: u64 = if t_y >= nh as u64 {
        t_y - nh as u64
    } else {
        0
    };
    let y0: usize = (num_y / den_y) as usize;
    let ty: u64 = num_y % den_y;
    let y1: usize = if y0 + 1 < h - 1 {
        y0 + 1
    } else {
        h - 1
    };
    let c00 = img.pixel_unchecked(x0, y0);
    let c10 = img.pixel_unchecked(x1, y0);
    let c01 = img.pixel_unchecked(x0, y1);
    let c11 = img.pixel_unchecked(x1, y1);
    SKIDColor {
        r: blend_channel(c00.r, c10.r, c01.r, c11.r, tx, den_x, ty, den_y),
        g: blend_channel(c00.g, c10.g, c01.g, c11.g, tx, den_x, ty, den_y),
        b: blend_channel(c00.b, c10.b, c01.b, c11.b, tx, den_x, ty, den_y),
        a: blend_channel(c00.a, c10.a, c01.a, c11.a, tx, den_x, ty, den_y),
    }
}

/// Nearest-neighbor resize: every output pixel copies its nearest source
/// pixel per the truncating index formula.
pub fn resize_nearest(img: &SKIDImage, new_size: SKIDSizeVector2) -> (out: SKIDImage)
    requires
        img.wf(),
        1 <= img.spec_width() <= MAX_DIM,
        1 <= img.spec_height() <= MAX_DIM,
        new_size.width <= MAX_DIM,
        new_size.height <= MAX_DIM,
        new_size.width * new_size.height <= usize::MAX,
    ensures
        out.wf(),
        out.spec_width() == new_size.width,
        out.spec_height() == new_size.height,
        forall|x: int, y: int|
            out.in_bounds(x, y) ==> out.pixel_at(x, y) == nearest_pixel(
                *img,
                new_size.width as int,
                new_size.height as int,
                x,
                y,
            ),
{
    let w = img.width();
    let h = img.height();
    let nw = new_size.width;
    let nh = new_size.height;
    let mut data: Vec<SKIDColor> = Vec::new();
    let mut y: usize = 0;
    while y < nh
        invariant
            img.wf(),
            w == img.spec_width(),
            h == img.spec_height(),
            1 <= w <= MAX_DIM,
            1 <= h <= MAX_DIM,
            nw <= MAX_DIM,
            nh <= MAX_DIM,
            nw * nh <= usize::MAX,
            y <= nh,
            data@.len() == y * nw,
            forall|py: int, px: int|
                0 <= py < y && 0 <= px < nw ==> data@[py * nw + px] == nearest_pixel(
                    *img,
                    nw as int,
                    nh as int,
                    px,
                    py,
                ),
        decreases nh - y,
    {
        let mut x: usize = 0;
        while x < nw
            invariant
                img.wf(),
                w == img.spec_width(),
                h == img.spec_height(),
                1 <= w <= MAX_DIM,
                1 <= h <= MAX_DIM,
                nw <= MAX_DIM,
                nh <= MAX_DIM,
                nw * nh <= usize::MAX,
                y < nh,
                x <= nw,
                data@.len() == y * nw + x,
                forall|py: int, px: int|
                    0 <= py < y && 0 <= px < nw ==> data@[py * nw + px] == nearest_pixel(
                        *img,
                        nw as int,
                        nh as int,
                        px,
                        py,
                    ),
                forall|px: int|
                    0 <= px < x ==> data@[y * nw + px] == nearest_pixel(
                        *img,
                        nw as int,
                        nh as int,
                        px,
                        y as int,
                    ),
            decreases nw - x,
        {
            proof {
                lemma_nearest_src_in_range(x as int, w as int, nw as int);
                lemma_nearest_src_in_range(y as int, h as int, nh as int);
                lemma_row_major_index(x as int, y as int, nw as int, nh as int);
                assert((x as int) * (w as int) <= 0x3FFF_FFFF_0000_0000) by (nonlinear_arith)
                    requires
                        x < nw <= 0x7FFF_FFFF,
                        w <= 0x7FFF_FFFF,
                ;
                assert((y as int) * (h as int) <= 0x3FFF_FFFF_0000_0000) by (nonlinear_arith)
                    requires
                        y < nh <= 0x7FFF_FFFF,
                        h <= 0x7FFF_FFFF,
                ;
            }
            let sx: usize = ((x as u64) * (w as u64) / (nw as u64)) as usize;
            let sy: usize = ((y as u64) * (h as u64) / (nh as u64)) as usize;
            let c = img.pixel_unchecked(sx, sy);
            let ghost pre = data@;
            data.push(c);
            proof {
                assert forall|py: int, px: int|
                    0 <= py < y && 0 <= px < nw implies data@[py * nw + px] == nearest_pixel(
                    *img,
                    nw as int,
                    nh as int,
                    px,
                    py,
                ) by {
                    lemma_row_index_lt(py, px, y as int, nw as int);
                    assert(data@[py * nw + px] == pre[py * nw + px]);
                }
                assert forall|px: int|
                    0 <= px < x + 1 implies data@[y * nw + px] == nearest_pixel(
                    *img,
                    nw as int,
                    nh as int,
                    px,
                    y as int,
                ) by {
                    if px < x {
                        assert(data@[y * nw + px] == pre[y * nw + px]);
                    } else {
                        assert(data@[y * nw + px] == c);
                    }
                }
            }
            x = x + 1;
        }
        proof {
            lemma_row_step(y as int, nw as int);
            assert forall|py: int, px: int|
                0 <= py < y + 1 && 0 <= px < nw implies data@[py * nw + px] == nearest_pixel(
                *img,
                nw as int,
                nh as int,
                px,
                py,
            ) by {
                if py < y {
                    assert(data@[py * nw + px] == nearest_pixel(*img, nw as int, nh as int, px, py));
                } else {
                    assert(data@[py * nw + px] == nearest_pixel(*img, nw as int, nh as int, px, py));
                }
            }
        }
        y = y + 1;
    }
    proof {
        assert(data@.len() == nw * nh) by (nonlinear_arith)
            requires
                data@.len() == nh * nw,
        ;
    }
    SKIDImage::from_1d_data(new_size, data)
}

/// Bilinear resize: every output pixel blends the four source pixels that
/// surround its mapped center, by the exact fractional weights.
pub fn resize_bilinear(img: &SKIDImage, new_size: SKIDSizeVector2) -> (out: SKIDImage)
    requires
        img.wf(),
        1 <= img.spec_width() <= MAX_DIM,
        1 <= img.spec_height() <= MAX_DIM,
        new_size.width <= MAX_DIM,
        new_size.height <= MAX_DIM,
        new_size.width * new_size.height <= usize::MAX,
    ensures
        out.wf(),
        out.spec_width() == new_size.width,
        out.spec_height() == new_size.height,
        forall|x: int, y: int|
            out.in_bounds(x, y) ==> out.pixel_at(x, y) == bilinear_pixel(
                *img,
                new_size.width as int,
                new_size.height as int,
                x,
                y,
            ),
{
    let nw = new_size.width;
    let nh = new_size.height;
    let mut data: Vec<SKIDColor> = Vec::new();
    let mut y: usize = 0;
    while y < nh
        invariant
            img.wf(),
            1 <= img.spec_width() <= MAX_DIM,
            1 <= img.spec_height() <= MAX_DIM,
            nw <= MAX_DIM,
            nh <= MAX_DIM,
            nw * nh <= usize::MAX,
            y <= nh,
            data@.len() == y * nw,
            forall|py: int, px: int|
                0 <= py < y && 0 <= px < nw ==> data@[py * nw + px] == bilinear_pixel(
                    *img,
                    nw as int,
                    nh as int,
                    px,
                    py,
                ),
        decreases nh - y,
    {
        let mut x: usize = 0;
        while x < nw
            invariant
                img.wf(),
                1 <= img.spec_width() <= MAX_DIM,
                1 <= img.spec_height() <= MAX_DIM,
                nw <= MAX_DIM,
                nh <= MAX_DIM,
                nw * nh <= usize::MAX,
                y < nh,
                x <= nw,
                data@.len() == y * nw + x,
                forall|py: int, px: int|
                    0 <= py < y && 0 <= px < nw ==> data@[py * nw + px] == bilinear_pixel(
                        *img,
                        nw as int,
                        nh as int,
                        px,
                        py,
                    ),
                forall|px: int|
                    0 <= px < x ==> data@[y * nw + px] == bilinear_pixel(
                        *img,
                        nw as int,
                        nh as int,
                        px,
                        y as int,
                    ),
            decreases nw - x,
        {
            proof {
                lemma_row_major_index(x as int, y as int, nw as int, nh as int);
            }
            let c = bilinear_sample(img, nw, nh, x, y);
            let ghost pre = data@;
            data.push(c);
            proof {
                assert forall|py: int, px: int|
                    0 <= py < y && 0 <= px < nw implies data@[py * nw + px] == bilinear_pixel(
                    *img,
                    nw as int,
                    nh as int,
                    px,
                    py,
                ) by {
                    lemma_row_index_lt(py, px, y as int, nw as int);
                    assert(data@[py * nw + px] == pre[py * nw + px]);
                }
                assert forall|px: int|
                    0 <= px < x + 1 implies data@[y * nw + px] == bilinear_pixel(
                    *img,
                    nw as int,
                    nh as int,
                    px,
                    y as int,
                ) by {
                    if px < x {
                        assert(data@[y * nw + px] == pre[y * nw + px]);
                    } else {
                        assert(data@[y * nw + px] == c);
                    }
                }
            }
            x = x + 1;
        }
        proof {
            lemma_row_step(y as int, nw as int);
            assert forall|py: int, px: int|
                0 <= py < y + 1 && 0 <= px < nw implies data@[py * nw + px] == bilinear_pixel(
                *img,
                nw as int,
                nh as int,
                px,
                py,
            ) by {
                if py < y {
                    assert(data@[py * nw + px] == bilinear_pixel(*img, nw as int, nh as int, px, py));
                } else {
                    assert(data@[py * nw + px] == bilinear_pixel(*img, nw as int, nh as int, px, py));
                }
            }
        }
        y = y + 1;
    }
    proof {
        assert(data@.len() == nw * nh) by (nonlinear_arith)
            requires
                data@.len() == nh * nw,
        ;
    }
    SKIDImage::from_1d_data(new_size, data)
}

/// Resizes an image to a new extent and always hands back a fresh image:
/// bilinear interpolation when the width grows, nearest-neighbor sampling
/// otherwise, exactly as the per-kernel contracts state.
pub fn resize_image(img: &SKIDImage, new_size: SKIDSizeVector2) -> (out: SKIDImage)
    requires
        img.wf(),
        1 <= img.spec_width() <= MAX_DIM,
        1 <= img.spec_height() <= MAX_DIM,
        new_size.width <= MAX_DIM,
        new_size.height <= MAX_DIM,
        new_size.width * new_size.height <= usize::MAX,
    ensures
        out.wf(),
        out.spec_width() == new_size.width,
        out.spec_height() == new_size.height,
        new_size.width > img.spec_width() ==> forall|x: int, y: int|
            out.in_bounds(x, y) ==> out.pixel_at(x, y) == bilinear_pixel(
                *img,
                new_size.width as int,
                new_size.height as int,
                x,
                y,
            ),
        new_size.width <= img.spec_width() ==> forall|x: int, y: int|
            out.in_bounds(x, y) ==> out.pixel_at(x, y) == nearest_pixel(
                *img,
                new_size.width as int,
                new_size.height as int,
                x,
                y,
            ),
{
    if new_size.width > img.width() {
        resize_bilinear(img, new_size)
    } else {
        resize_nearest(img, new_size)
    }
}

/// Resizing an image to its own extent by nearest-neighbor sampling gives
/// back every pixel unchanged.
pub proof fn lemma_nearest_identity(img: SKIDImage, x: int, y: int)
    requires
        img.wf(),
        img.in_bounds(x, y),
    ensures
        nearest_pixel(img, img.spec_width() as int, img.spec_height() as int, x, y)
            == img.pixel_at(x, y),
{
    let w = img.spec_width() as int;
    let h = img.spec_height() as int;
    assert(x * w / w == x && y * h / h == y) by (nonlinear_arith)
        requires
            0 <= x < w,
            0 <= y < h,
    ;
}

/// Resizing an image to its own extent by bilinear interpolation also
/// gives back every pixel unchanged: the fractional weights all vanish.
pub proof fn lemma_bilinear_identity(img: SKIDImage, x: int, y: int)
    requires
        img.wf(),
        img.in_bounds(x, y),
    ensures
        bilinear_pixel(img, img.spec_width() as int, img.spec_height() as int, x, y)
            == img.pixel_at(x, y),
{
    let w = img.spec_width() as int;
    let h = img.spec_height() as int;
    assert(bl_num(x, w, w) == 2 * x * w && bl_num(y, h, h) == 2 * y * h) by (nonlinear_arith)
        requires
            0 <= x < w,
            0 <= y < h,
    ;
    assert((2 * x * w) / (2 * w) == x && (2 * x * w) % (2 * w) == 0 && (2 * y * h) / (2 * h) == y
        && (2 * y * h) % (2 * h) == 0) by (nonlinear_arith)
        requires
            0 <= x < w,
            0 <= y < h,
    ;
    let c00 = img.pixel_at(x, y);
    assert(bl_blend(c00.r as int, img.pixel_at(bl_next(x, w, w), y).r as int, img.pixel_at(
        x, bl_next(y, h, h)).r as int, img.pixel_at(bl_next(x, w, w), bl_next(y, h, h)).r as int,
        0, 2 * w, 0, 2 * h) == c00.r) by (nonlinear_arith)
        requires
            1 <= w,
            1 <= h,
            0 <= c00.r <= 255,
    ;
    assert(bl_blend(c00.g as int, img.pixel_at(bl_next(x, w, w), y).g as int, img.pixel_at(
        x, bl_next(y, h, h)).g as int, img.pixel_at(bl_next(x, w, w), bl_next(y, h, h)).g as int,
        0, 2 * w, 0, 2 * h) == c00.g) by (nonlinear_arith)
        requires
            1 <= w,
            1 <= h,
            0 <= c00.g <= 255,
    ;
    assert(bl_blend(c00.b as int, img.pixel_at(bl_next(x, w, w), y).b as int, img.pixel_at(
        x, bl_next(y, h, h)).b as int, img.pixel_at(bl_next(x, w, w), bl_next(y, h, h)).b as int,
        0, 2 * w, 0, 2 * h) == c00.b) by (nonlinear_arith)
        requires
            1 <= w,
            1 <= h,
            0 <= c00.b <= 255,
    ;
    assert(bl_blend(c00.a as int, img.pixel_at(bl_next(x, w, w), y).a as int, img.pixel_at(
        x, bl_next(y, h, h)).a as int, img.pixel_at(bl_next(x, w, w), bl_next(y, h, h)).a as int,
        0, 2 * w, 0, 2 * h) == c00.a) by (nonlinear_arith)
        requires
            1 <= w,
            1 <= h,
            0 <= c00.a <= 255,
    ;
}

} // verus!
