//! Pointwise whole-image operations: the same per-pixel arithmetic the
//! color type defines, applied across a buffer.

use vstd::prelude::*;

use crate::color::{SKIDColor, sat_add_u8};
use crate::image::SKIDImage;

verus! {

/// The color an add-constant pass writes for an input pixel: every
/// channel saturating-added with the constant's channel.
pub open spec fn add_const_pixel(c: SKIDColor, value: SKIDColor) -> SKIDColor {
    SKIDColor {
        r: sat_add_u8(c.r, value.r),
        g: sat_add_u8(c.g, value.g),
        b: sat_add_u8(c.b, value.b),
        a: sat_add_u8(c.a, value.a),
    }
}

/// Adds a constant color to every pixel, saturating per channel, and
/// hands back a fresh image of the same extent.
pub fn apply_add_const(img: &SKIDImage, value: SKIDColor) -> (out: SKIDImage)
    requires
        img.wf(),
    ensures
        out.wf(),
        out.spec_width() == img.spec_width(),
        out.spec_height() == img.spec_height(),
        out.pixels().len() == img.pixels().len(),
        forall|k: int|
            0 <= k < img.pixels().len() ==> out.pixels()[k] == add_const_pixel(
                img.pixels()[k],
                value,
            ),
{
    let n = img.len();
    let mut data: Vec<SKIDColor> = Vec::new();
    let mut i: usize = 0;
    while i < n
        invariant
            img.wf(),
            n == img.pixels().len(),
            i <= n,
            data@.len() == i,
            forall|k: int|
                0 <= k < i ==> data@[k] == add_const_pixel(img.pixels()[k], value),
        decreases n - i,
    {
        let c = img.pixel_flat(i);
        data.push(c.add(value));
        i = i + 1;
    }
    let w = img.width();
    let h = img.height();
    SKIDImage::from_data(w, h, data)
}

} // verus!
