//! Surface-normal-map generation.
//!
//! For each pixel the kernel samples the grayscale intensity (Rec. 601
//! luma) of its left, right, top and bottom neighbors — edge pixels clamp
//! to themselves — takes the horizontal and vertical slopes scaled by the
//! given factors, normalizes the vector `(dx, dy, 1)`, and maps each
//! normal component from `[-1, 1]` to a color channel. The math runs in
//! Q16.16 fixed point with Euclidean (floor) divisions, so it is exact and
//! identical on every backend. A flat region has `dx = dy = 0` and yields
//! the straight-out normal `(0, 0, 1)`.

use vstd::prelude::*;

use crate::color::SKIDColor;
use crate::image::{SKIDImage, lemma_row_major_index, lemma_row_index_lt, lemma_row_step};
use crate::numeric::{floor_sqrt, is_floor_sqrt, lemma_floor_sqrt, lemma_floor_sqrt_unique, div_euclid_pos, isqrt};
use crate::resize::MAX_DIM;

verus! {

/// One in Q16.16 fixed point.
pub const FX_ONE: i64 = 0x1_0000;

/// The largest accepted slope factor (256 in fixed point): keeps every
/// intermediate product inside `i64`.
pub const MAX_FACTOR_FX: i64 = 0x100_0000;

/// Luma weights denominator: the weighted channel sum of a white pixel.
pub const LUMA_WHITE: i64 = 255000;

/// Rec. 601 grayscale intensity of a color, scaled so white is
/// `LUMA_WHITE`.
pub open spec fn luma_spec(c: SKIDColor) -> int {
    299 * c.r + 587 * c.g + 114 * c.b
}

/// The neighbor one step towards zero; the first cell clamps to itself.
pub open spec fn clamp_dec(c: int) -> int {
    if c > 0 {
        c - 1
    } else {
        0
    }
}

/// The neighbor one step away from zero; the last cell clamps to itself.
pub open spec fn clamp_inc(c: int, dim: int) -> int {
    if c < dim - 1 {
        c + 1
    } else {
        dim - 1
    }
}

/// The fixed-point slope between two luma samples, scaled by a
/// fixed-point factor.
pub open spec fn slope_fx(l_lo: int, l_hi: int, factor: int) -> int {
    (l_hi - l_lo) * factor / (LUMA_WHITE as int)
}

/// The fixed-point length of the vector `(dx, dy, 1)`.
pub open spec fn normal_len_fx(dx: int, dy: int) -> int {
    floor_sqrt(dx * dx + dy * dy + FX_ONE * FX_ONE)
}

/// A normal component in `[-1, 1]` fixed point, mapped to a byte via
/// `(v + 1) / 2`.
pub open spec fn normal_chan(n: int) -> int {
    (n + FX_ONE) * 255 / (2 * FX_ONE)
}

/// The color the normal-map kernel writes at pixel `(x, y)`: the
/// normalized `(dx, dy, 1)` in r, g, b and a fully opaque alpha.
pub open spec fn normal_pixel(img: SKIDImage, xf: int, yf: int, x: int, y: int) -> SKIDColor {
    let w = img.spec_width() as int;
    let h = img.spec_height() as int;
    let l_left = luma_spec(img.pixel_at(clamp_dec(x), y));
    let l_right = luma_spec(img.pixel_at(clamp_inc(x, w), y));
    let l_top = luma_spec(img.pixel_at(x, clamp_dec(y)));
    let l_bottom = luma_spec(img.pixel_at(x, clamp_inc(y, h)));
    let dx = slope_fx(l_left, l_right, xf);
    let dy = slope_fx(l_top, l_bottom, yf);
    let len = normal_len_fx(dx, dy);
    let nx = dx * FX_ONE / len;
    let ny = dy * FX_ONE / len;
    let nz = FX_ONE * FX_ONE / len;
    SKIDColor {
        r: normal_chan(nx) as u8,
        g: normal_chan(ny) as u8,
        b: normal_chan(nz) as u8,
        a: 255,
    }
}

/// The executable luma computation.
fn luma(c: SKIDColor) -> (l: i64)
    ensures
        l == luma_spec(c),
        0 <= l <= LUMA_WHITE,
{
    299 * (c.r as i64) + 587 * (c.g as i64) + 114 * (c.b as i64)
}

/// A scaled slope stays within one factor unit of the factor bound.
proof fn lemma_slope_bound(l_lo: int, l_hi: int, factor: int)
    requires
        0 <= l_lo <= LUMA_WHITE,
        0 <= l_hi <= LUMA_WHITE,
        0 <= factor <= MAX_FACTOR_FX,
    ensures
        -(MAX_FACTOR_FX as int) - 1 <= slope_fx(l_lo, l_hi, factor) <= MAX_FACTOR_FX,
        -0x4000_0000_0000_0000 <= (l_hi - l_lo) * factor <= 0x4000_0000_0000_0000,
{
    assert(-(MAX_FACTOR_FX as int) - 1 <= (l_hi - l_lo) * factor / (LUMA_WHITE as int)
        <= MAX_FACTOR_FX && -0x4000_0000_0000_0000 <= (l_hi - l_lo) * factor
        <= 0x4000_0000_0000_0000) by (nonlinear_arith)
        requires
            0 <= l_lo <= 255000,
            0 <= l_hi <= 255000,
            0 <= factor <= 0x100_0000,
    ;
}

/// The normalized components stay within one fixed-point unit, and the
/// squared-length sum stays inside `u64`.
proof fn lemma_normal_parts(dx: int, dy: int)
    requires
        -0x100_0001 <= dx <= 0x100_0001,
        -0x100_0001 <= dy <= 0x100_0001,
    ensures
        FX_ONE <= normal_len_fx(dx, dy),
        0 <= dx * dx <= 0x1_0000_2000_0001,
        0 <= dy * dy <= 0x1_0000_2000_0001,
        0 <= dx * dx + dy * dy + FX_ONE * FX_ONE <= 0x8_0000_5000_0000,
        -(FX_ONE as int) <= dx * FX_ONE / normal_len_fx(dx, dy) <= FX_ONE,
        -(FX_ONE as int) <= dy * FX_ONE / normal_len_fx(dx, dy) <= FX_ONE,
        0 <= FX_ONE * FX_ONE / normal_len_fx(dx, dy) <= FX_ONE,
{
    let s = dx * dx + dy * dy + FX_ONE * FX_ONE;
    assert(FX_ONE * FX_ONE <= s <= 0x8_0000_5000_0000 && dx * dx <= s && dy * dy <= s && 0 <= dx
        * dx <= 0x1_0000_2000_0001 && 0 <= dy * dy <= 0x1_0000_2000_0001) by (nonlinear_arith)
        requires
            -0x100_0001 <= dx <= 0x100_0001,
            -0x100_0001 <= dy <= 0x100_0001,
            s == dx * dx + dy * dy + FX_ONE * FX_ONE,
    ;
    lemma_floor_sqrt(s);
    let len = floor_sqrt(s);
    assert(len >= FX_ONE) by (nonlinear_arith)
        requires
            is_floor_sqrt(s, len),
            s >= FX_ONE * FX_ONE,
            FX_ONE == 0x1_0000i64,
    ;
    assert(-len <= dx <= len) by (nonlinear_arith)
        requires
            is_floor_sqrt(s, len),
            dx * dx <= s,
    ;
    assert(-len <= dy <= len) by (nonlinear_arith)
        requires
            is_floor_sqrt(s, len),
            dy * dy <= s,
    ;
    assert(-(FX_ONE as int) <= dx * FX_ONE / len <= FX_ONE) by (nonlinear_arith)
        requires
            -len <= dx <= len,
            len >= 1,
            FX_ONE == 0x1_0000i64,
    ;
    assert(-(FX_ONE as int) <= dy * FX_ONE / len <= FX_ONE) by (nonlinear_arith)
        requires
            -len <= dy <= len,
            len >= 1,
            FX_ONE == 0x1_0000i64,
    ;
    assert(0 <= FX_ONE * FX_ONE / len <= FX_ONE) by (nonlinear_arith)
        requires
            len >= FX_ONE,
            FX_ONE == 0x1_0000i64,
    ;
}

/// A normal component within one fixed-point unit maps to a byte.
proof fn lemma_normal_chan_byte(n: int)
    requires
        -(FX_ONE as int) <= n <= FX_ONE,
    ensures
        0 <= normal_chan(n) <= 255,
{
    assert(0 <= (n + FX_ONE) * 255 / (2 * FX_ONE) <= 255) by (nonlinear_arith)
        requires
            -(FX_ONE as int) <= n <= FX_ONE,
            FX_ONE == 0x1_0000i64,
    ;
}

/// One output pixel of the normal-map kernel.
fn normal_sample(img: &SKIDImage, xf: i64, yf: i64, x: usize, y: usize) -> (c: SKIDColor)
    requires
        img.wf(),
        1 <= img.spec_width() <= MAX_DIM,
        1 <= img.spec_height() <= MAX_DIM,
        x < img.spec_width(),
        y < img.spec_height(),
        0 <= xf <= MAX_FACTOR_FX,
        0 <= yf <= MAX_FACTOR_FX,
    ensures
        c == normal_pixel(*img, xf as int, yf as int, x as int, y as int),
{
    let w = img.width();
    let h = img.height();
    let x_left: usize = if x > 0 {
        x - 1
    } else {
        0
    };
    let x_right: usize = if x < w - 1 {
        x + 1
    } else {
        w - 1
    };
    let y_top: usize = if y > 0 {
        y - 1
    } else {
        0
    };
    let y_bottom: usize = if y < h - 1 {
        y + 1
    } else {
        h - 1
    };
    let l_left = luma(img.pixel_unchecked(x_left, y));
    let l_right = luma(img.pixel_unchecked(x_right, y));
    let l_top = luma(img.pixel_unchecked(x, y_top));
    let l_bottom = luma(img.pixel_unchecked(x, y_bottom));
    proof {
        lemma_slope_bound(l_left as int, l_right as int, xf as int);
        lemma_slope_bound(l_top as int, l_bottom as int, yf as int);
    }
    let dx: i64 = div_euclid_pos((l_right - l_left) * xf, LUMA_WHITE);
    let dy: i64 = div_euclid_pos((l_bottom - l_top) * yf, LUMA_WHITE);
    proof {
        lemma_normal_parts(dx as int, dy as int);
    }
    let sum_sq: u64 = (dx * dx + dy * dy + FX_ONE * FX_ONE) as u64;
    proof {
        assert(sum_sq == dx * dx + dy * dy + FX_ONE * FX_ONE);
    }
    let len: i64 = isqrt(sum_sq) as i64;
    proof {
        lemma_floor_sqrt(sum_sq as int);
        lemma_floor_sqrt_unique(sum_sq as int, len as int, normal_len_fx(dx as int, dy as int));
    }
    let nx: i64 = div_euclid_pos(dx * FX_ONE, len);
    let ny: i64 = div_euclid_pos(dy * FX_ONE, len);
    let nz: i64 = div_euclid_pos(FX_ONE * FX_ONE, len);
    proof {
        lemma_normal_chan_byte(nx as int);
        lemma_normal_chan_byte(ny as int);
        lemma_normal_chan_byte(nz as int);
    }
    let r: u8 = div_euclid_pos((nx + FX_ONE) * 255, 2 * FX_ONE) as u8;
    let g: u8 = div_euclid_pos((ny + FX_ONE) * 255, 2 * FX_ONE) as u8;
    let b: u8 = div_euclid_pos((nz + FX_ONE) * 255, 2 * FX_ONE) as u8;
    SKIDColor { r, g, b, a: 255 }
}

/// Generates the normal map of an image with the given fixed-point slope
/// factors; the output has the same extent and every pixel follows the
/// kernel formula exactly.
pub fn make_normal_map(img: &SKIDImage, x_factor_fx: i64, y_factor_fx: i64) -> (out: SKIDImage)
    requires
        img.wf(),
        1 <= img.spec_width() <= MAX_DIM,
        1 <= img.spec_height() <= MAX_DIM,
        0 <= x_factor_fx <= MAX_FACTOR_FX,
        0 <= y_factor_fx <= MAX_FACTOR_FX,
    ensures
        out.wf(),
        out.spec_width() == img.spec_width(),
        out.spec_height() == img.spec_height(),
        forall|x: int, y: int|
            out.in_bounds(x, y) ==> out.pixel_at(x, y) == normal_pixel(
                *img,
                x_factor_fx as int,
                y_factor_fx as int,
                x,
                y,
            ),
{
    let w = img.width();
    let h = img.height();
    let ghost gw = w as int;
    let ghost gh = h as int;
    let mut data: Vec<SKIDColor> = Vec::new();
    let mut y: usize = 0;
    while y < h
        invariant
            img.wf(),
            w == img.spec_width(),
            h == img.spec_height(),
            1 <= w <= MAX_DIM,
            1 <= h <= MAX_DIM,
            0 <= x_factor_fx <= MAX_FACTOR_FX,
            0 <= y_factor_fx <= MAX_FACTOR_FX,
            y <= h,
            data@.len() == y * w,
            forall|py: int, px: int|
                0 <= py < y && 0 <= px < w ==> data@[py * w + px] == normal_pixel(
                    *img,
                    x_factor_fx as int,
                    y_factor_fx as int,
                    px,
                    py,
                ),
        decreases h - y,
    {
        let mut x: usize = 0;
        while x < w
            invariant
                img.wf(),
                w == img.spec_width(),
                h == img.spec_height(),
                1 <= w <= MAX_DIM,
                1 <= h <= MAX_DIM,
                0 <= x_factor_fx <= MAX_FACTOR_FX,
                0 <= y_factor_fx <= MAX_FACTOR_FX,
                y < h,
                x <= w,
                data@.len() == y * w + x,
                forall|py: int, px: int|
                    0 <= py < y && 0 <= px < w ==> data@[py * w + px] == normal_pixel(
                        *img,
                        x_factor_fx as int,
                        y_factor_fx as int,
                        px,
                        py,
                    ),
                forall|px: int|
                    0 <= px < x ==> data@[y * w + px] == normal_pixel(
                        *img,
                        x_factor_fx as int,
                        y_factor_fx as int,
                        px,
                        y as int,
                    ),
            decreases w - x,
        {
            proof {
                lemma_row_major_index(x as int, y as int, w as int, h as int);
            }
            let c = normal_sample(img, x_factor_fx, y_factor_fx, x, y);
            let ghost pre = data@;
            data.push(c);
            proof {
                assert forall|py: int, px: int|
                    0 <= py < y && 0 <= px < w implies data@[py * w + px] == normal_pixel(
                    *img,
                    x_factor_fx as int,
                    y_factor_fx as int,
                    px,
                    py,
                ) by {
                    lemma_row_index_lt(py, px, y as int, w as int);
                    assert(data@[py * w + px] == pre[py * w + px]);
                }
                assert forall|px: int|
                    0 <= px < x + 1 implies data@[y * w + px] == normal_pixel(
                    *img,
                    x_factor_fx as int,
                    y_factor_fx as int,
                    px,
                    y as int,
                ) by {
                    if px < x {
                        assert(data@[y * w + px] == pre[y * w + px]);
                    } else {
                        assert(data@[y * w + px] == c);
                    }
                }
            }
            x = x + 1;
        }
        proof {
            lemma_row_step(y as int, w as int);
            assert forall|py: int, px: int|
                0 <= py < y + 1 && 0 <= px < w implies data@[py * w + px] == normal_pixel(
                *img,
                x_factor_fx as int,
                y_factor_fx as int,
                px,
                py,
            ) by {
                if py < y {
                    assert(data@[py * w + px] == normal_pixel(*img, x_factor_fx as int, y_factor_fx as int, px, py));
                } else {
                    assert(data@[py * w + px] == normal_pixel(*img, x_factor_fx as int, y_factor_fx as int, px, py));
                }
            }
        }
        y = y + 1;
    }
    proof {
        assert(data@.len() == w * h) by (nonlinear_arith)
            requires
                data@.len() == gh * gw,
                gw == w as int,
                gh == h as int,
        ;
    }
    SKIDImage::from_data(w, h, data)
}

/// Generates the normal map with the default slope factors of one half.
pub fn make_normal_map_base(img: &SKIDImage) -> (out: SKIDImage)
    requires
        img.wf(),
        1 <= img.spec_width() <= MAX_DIM,
        1 <= img.spec_height() <= MAX_DIM,
    ensures
        out.wf(),
        out.spec_width() == img.spec_width(),
        out.spec_height() == img.spec_height(),
        forall|x: int, y: int|
            out.in_bounds(x, y) ==> out.pixel_at(x, y) == normal_pixel(
                *img,
                (FX_ONE / 2) as int,
                (FX_ONE / 2) as int,
                x,
                y,
            ),
{
    make_normal_map(img, FX_ONE / 2, FX_ONE / 2)
}

/// On a uniform image every pixel of the normal map — edge pixels
/// included, since clamped neighbors sample the same color — is the
/// straight-out normal `(0, 0, 1)`, encoded as the color
/// `(127, 127, 255, 255)`: one half, one half, one, in bytes.
pub proof fn lemma_normal_map_flat(img: SKIDImage, xf: int, yf: int, c: SKIDColor, x: int, y: int)
    requires
        img.wf(),
        img.in_bounds(x, y),
        forall|px: int, py: int| img.in_bounds(px, py) ==> img.pixel_at(px, py) == c,
        0 <= xf,
        0 <= yf,
    ensures
        normal_pixel(img, xf, yf, x, y) == (SKIDColor { r: 127, g: 127, b: 255, a: 255 }),
{
    let w = img.spec_width() as int;
    let h = img.spec_height() as int;
    assert(img.in_bounds(clamp_dec(x), y));
    assert(img.in_bounds(clamp_inc(x, w), y));
    assert(img.in_bounds(x, clamp_dec(y)));
    assert(img.in_bounds(x, clamp_inc(y, h)));
    let l = luma_spec(c);
    assert((l - l) * xf == 0) by (nonlinear_arith);
    assert((l - l) * yf == 0) by (nonlinear_arith);
    assert(slope_fx(l, l, xf) == 0);
    assert(slope_fx(l, l, yf) == 0);
    assert(is_floor_sqrt(FX_ONE * FX_ONE, FX_ONE as int));
    lemma_floor_sqrt(FX_ONE * FX_ONE);
    lemma_floor_sqrt_unique(FX_ONE * FX_ONE, FX_ONE as int, floor_sqrt(FX_ONE * FX_ONE));
    assert(normal_len_fx(0, 0) == FX_ONE);
    assert(0 * (FX_ONE as int) == 0);
    assert(0int / (FX_ONE as int) == 0);
    assert(FX_ONE * FX_ONE / (FX_ONE as int) == FX_ONE);
    assert(normal_chan(0) == 127) by (nonlinear_arith);
    assert(normal_chan(FX_ONE as int) == 255) by (nonlinear_arith);
}

} // verus!
