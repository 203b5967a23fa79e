//! Four-channel RGBA pixel values with exact, saturating 8-bit arithmetic.
//!
//! A channel is a `u8` in `0..=255`; `255` stands for full intensity (the
//! normalized value `1.0`). Addition, subtraction and multiplication saturate
//! to the representable range instead of wrapping; division by a zero channel
//! yields zero in that channel rather than faulting.

use vstd::prelude::*;

verus! {

/// A pixel: four 8-bit channels, exact value equality.
#[derive(Debug, Clone, Copy, PartialEq, Eq, Structural)]
pub struct SKIDColor {
    pub r: u8,
    pub g: u8,
    pub b: u8,
    pub a: u8,
}

/// Saturating byte addition: clamps at 255 instead of wrapping.
pub open spec fn sat_add_u8(x: u8, y: u8) -> u8 {
    if x + y > 255 {
        255u8
    } else {
        (x + y) as u8
    }
}

/// Saturating byte subtraction: clamps at 0 instead of wrapping.
pub open spec fn sat_sub_u8(x: u8, y: u8) -> u8 {
    if x < y {
        0u8
    } else {
        (x - y) as u8
    }
}

/// Saturating byte multiplication: clamps at 255 instead of wrapping.
pub open spec fn sat_mul_u8(x: u8, y: u8) -> u8 {
    if x * y > 255 {
        255u8
    } else {
        (x * y) as u8
    }
}

/// Byte division with the degenerate case defined: a zero divisor yields zero.
pub open spec fn div_or_zero_u8(x: u8, y: u8) -> u8 {
    if y == 0 {
        0u8
    } else {
        (x / y) as u8
    }
}

/// The packed 32-bit form of a color: r in the most significant byte,
/// then g, then b, then a.
pub open spec fn color_to_u32(c: SKIDColor) -> u32 {
    (c.r * 0x1000000 + c.g * 0x10000 + c.b * 0x100 + c.a) as u32
}

/// The color unpacked from a 32-bit word: each byte is one channel,
/// r taken from the most significant byte.
pub open spec fn color_from_u32(w: u32) -> SKIDColor {
    SKIDColor {
        r: (w / 0x1000000) as u8,
        g: ((w / 0x10000) % 0x100) as u8,
        b: ((w / 0x100) % 0x100) as u8,
        a: (w % 0x100) as u8,
    }
}

/// Executable saturating byte multiplication, by widening to 16 bits.
fn sat_mul_byte(x: u8, y: u8) -> (r: u8)
    ensures
        r == sat_mul_u8(x, y),
{
    proof {
        assert(x * y <= 255 * 255) by (nonlinear_arith)
            requires
                x <= 255,
                y <= 255,
        ;
    }
    let p: u16 = (x as u16) * (y as u16);
    if p > 255 {
        255
    } else {
        p as u8
    }
}

impl SKIDColor {
    /// Builds a color from its four channels.
    pub fn new(r: u8, g: u8, b: u8, a: u8) -> (c: SKIDColor)
        ensures
            c == (SKIDColor { r, g, b, a }),
    {
        SKIDColor { r, g, b, a }
    }

    /// Packs the four channels into one 32-bit word, r most significant.
    pub fn to_u32(&self) -> (w: u32)
        ensures
            w == color_to_u32(*self),
    {
        proof {
            let r = self.r;
            let g = self.g;
            let b = self.b;
            let a = self.a;
            assert(((r as u32) << 24u32) | ((g as u32) << 16u32) | ((b as u32) << 8u32) | (
            a as u32) == ((r as u32) * 0x1000000 + (g as u32) * 0x10000 + (b as u32) * 0x100 + (
            a as u32)) as u32) by (bit_vector);
        }
        ((self.r as u32) << 24u32) | ((self.g as u32) << 16u32) | ((self.b as u32) << 8u32)
            | (self.a as u32)
    }

    /// Unpacks a 32-bit word into four channels, r from the most
    /// significant byte.
    pub fn from_u32(color: u32) -> (c: SKIDColor)
        ensures
            c == color_from_u32(color),
    {
        proof {
            assert((color >> 24u32) as u8 == (color / 0x1000000) as u8) by (bit_vector);
            assert((color >> 16u32) as u8 == ((color / 0x10000) % 0x100) as u8) by (bit_vector);
            assert((color >> 8u32) as u8 == ((color / 0x100) % 0x100) as u8) by (bit_vector);
            assert(color as u8 == (color % 0x100) as u8) by (bit_vector);
        }
        SKIDColor {
            r: (color >> 24u32) as u8,
            g: (color >> 16u32) as u8,
            b: (color >> 8u32) as u8,
            a: color as u8,
        }
    }

    /// Per-channel saturating addition.
    pub fn add(self, other: SKIDColor) -> (c: SKIDColor)
        ensures
            c.r == sat_add_u8(self.r, other.r),
            c.g == sat_add_u8(self.g, other.g),
            c.b == sat_add_u8(self.b, other.b),
            c.a == sat_add_u8(self.a, other.a),
    {
        SKIDColor {
            r: self.r.saturating_add(other.r),
            g: self.g.saturating_add(other.g),
            b: self.b.saturating_add(other.b),
            a: self.a.saturating_add(other.a),
        }
    }

    /// Per-channel saturating subtraction.
    pub fn sub(self, other: SKIDColor) -> (c: SKIDColor)
        ensures
            c.r == sat_sub_u8(self.r, other.r),
            c.g == sat_sub_u8(self.g, other.g),
            c.b == sat_sub_u8(self.b, other.b),
            c.a == sat_sub_u8(self.a, other.a),
    {
        SKIDColor {
            r: self.r.saturating_sub(other.r),
            g: self.g.saturating_sub(other.g),
            b: self.b.saturating_sub(other.b),
            a: self.a.saturating_sub(other.a),
        }
    }

    /// Per-channel saturating multiplication.
    pub fn mul_color(self, other: SKIDColor) -> (c: SKIDColor)
        ensures
            c.r == sat_mul_u8(self.r, other.r),
            c.g == sat_mul_u8(self.g, other.g),
            c.b == sat_mul_u8(self.b, other.b),
            c.a == sat_mul_u8(self.a, other.a),
    {
        SKIDColor {
            r: sat_mul_byte(self.r, other.r),
            g: sat_mul_byte(self.g, other.g),
            b: sat_mul_byte(self.b, other.b),
            a: sat_mul_byte(self.a, other.a),
        }
    }

    /// Per-channel division; a zero divisor channel yields a zero output
    /// channel rather than a fault.
    pub fn div_color(self, other: SKIDColor) -> (c: SKIDColor)
        ensures
            c.r == div_or_zero_u8(self.r, other.r),
            c.g == div_or_zero_u8(self.g, other.g),
            c.b == div_or_zero_u8(self.b, other.b),
            c.a == div_or_zero_u8(self.a, other.a),
    {
        SKIDColor {
            r: if other.r == 0 { 0 } else { self.r / other.r },
            g: if other.g == 0 { 0 } else { self.g / other.g },
            b: if other.b == 0 { 0 } else { self.b / other.b },
            a: if other.a == 0 { 0 } else { self.a / other.a },
        }
    }

    /// Saturating multiplication of every channel by one byte scalar.
    pub fn mul_u8(self, scalar: u8) -> (c: SKIDColor)
        ensures
            c.r == sat_mul_u8(self.r, scalar),
            c.g == sat_mul_u8(self.g, scalar),
            c.b == sat_mul_u8(self.b, scalar),
            c.a == sat_mul_u8(self.a, scalar),
    {
        SKIDColor {
            r: sat_mul_byte(self.r, scalar),
            g: sat_mul_byte(self.g, scalar),
            b: sat_mul_byte(self.b, scalar),
            a: sat_mul_byte(self.a, scalar),
        }
    }
}

/// Adding a color and then subtracting it again restores the original,
/// provided no channel saturated in the addition.
pub proof fn lemma_color_add_sub_roundtrip(a: SKIDColor, b: SKIDColor)
    requires
        a.r + b.r <= 255,
        a.g + b.g <= 255,
        a.b + b.b <= 255,
        a.a + b.a <= 255,
    ensures
        (SKIDColor {
            r: sat_sub_u8(sat_add_u8(a.r, b.r), b.r),
            g: sat_sub_u8(sat_add_u8(a.g, b.g), b.g),
            b: sat_sub_u8(sat_add_u8(a.b, b.b), b.b),
            a: sat_sub_u8(sat_add_u8(a.a, b.a), b.a),
        }) == a,
{
}

/// Packing a color into a 32-bit word and unpacking it again restores the
/// original color exactly.
pub proof fn lemma_color_u32_roundtrip(c: SKIDColor)
    ensures
        color_from_u32(color_to_u32(c)) == c,
{
    let w = color_to_u32(c);
    let r = c.r;
    let g = c.g;
    let b = c.b;
    let a = c.a;
    assert({
        let w2 = (r * 0x1000000 + g * 0x10000 + b * 0x100 + a) as u32;
        (w2 / 0x1000000) as u8 == r && ((w2 / 0x10000) % 0x100) as u8 == g && ((w2 / 0x100)
            % 0x100) as u8 == b && (w2 % 0x100) as u8 == a
    }) by (bit_vector);
}

} // verus!
