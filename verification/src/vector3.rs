//! Exact three-component vector algebra on 64-bit integer coordinates.
//!
//! Coordinates are plain integers (callers pick their own fixed-point scale),
//! so every operation here is exact: no rounding and no drift. Scalar
//! division uses Euclidean semantics (the remainder is never negative) and
//! faults on a zero divisor, which is therefore excluded up front — a policy
//! deliberately stricter than color division, where a zero divisor yields
//! zero.

use vstd::prelude::*;

verus! {

/// Coordinates at or below this magnitude keep every product of two
/// coordinates, and every sum of three such products, inside `i64`.
pub const COORD_BOUND: i64 = 0x4000_0000;

/// A three-component integer vector.
#[derive(Debug, Clone, Copy, PartialEq, Eq, Structural)]
pub struct SKIDVector3 {
    pub x: i64,
    pub y: i64,
    pub z: i64,
}

/// Whether every coordinate is small enough for products of coordinates
/// to stay inside `i64`.
pub open spec fn in_coord_range(v: SKIDVector3) -> bool {
    -COORD_BOUND <= v.x <= COORD_BOUND && -COORD_BOUND <= v.y <= COORD_BOUND && -COORD_BOUND <= v.z
        <= COORD_BOUND
}

/// The dot product of two vectors.
pub open spec fn dot_spec(a: SKIDVector3, b: SKIDVector3) -> int {
    a.x * b.x + a.y * b.y + a.z * b.z
}

/// The squared magnitude of a vector.
pub open spec fn mag_sq_spec(v: SKIDVector3) -> int {
    v.x * v.x + v.y * v.y + v.z * v.z
}

/// The x component of the cross product, by the right-hand rule.
pub open spec fn cross_x_spec(a: SKIDVector3, b: SKIDVector3) -> int {
    a.y * b.z - a.z * b.y
}

/// The y component of the cross product, by the right-hand rule.
pub open spec fn cross_y_spec(a: SKIDVector3, b: SKIDVector3) -> int {
    a.z * b.x - a.x * b.z
}

/// The z component of the cross product, by the right-hand rule.
pub open spec fn cross_z_spec(a: SKIDVector3, b: SKIDVector3) -> int {
    a.x * b.y - a.y * b.x
}

/// Products of two coordinates within the coordinate bound stay well
/// inside `i64`.
proof fn lemma_coord_product_bound(p: i64, q: i64)
    requires
        -COORD_BOUND <= p <= COORD_BOUND,
        -COORD_BOUND <= q <= COORD_BOUND,
    ensures
        -0x1000_0000_0000_0000 <= p * q <= 0x1000_0000_0000_0000,
{
    assert(-0x1000_0000_0000_0000 <= p * q <= 0x1000_0000_0000_0000) by (nonlinear_arith)
        requires
            -0x4000_0000 <= p <= 0x4000_0000,
            -0x4000_0000 <= q <= 0x4000_0000,
    ;
}

impl SKIDVector3 {
    /// Builds a vector from its three coordinates.
    pub fn new(x: i64, y: i64, z: i64) -> (v: SKIDVector3)
        ensures
            v == (SKIDVector3 { x, y, z }),
    {
        SKIDVector3 { x, y, z }
    }

    /// Component-wise addition.
    pub fn add(self, other: SKIDVector3) -> (r: SKIDVector3)
        requires
            i64::MIN <= self.x + other.x <= i64::MAX,
            i64::MIN <= self.y + other.y <= i64::MAX,
            i64::MIN <= self.z + other.z <= i64::MAX,
        ensures
            r.x == self.x + other.x,
            r.y == self.y + other.y,
            r.z == self.z + other.z,
    {
        SKIDVector3 { x: self.x + other.x, y: self.y + other.y, z: self.z + other.z }
    }

    /// Component-wise subtraction.
    pub fn sub(self, other: SKIDVector3) -> (r: SKIDVector3)
        requires
            i64::MIN <= self.x - other.x <= i64::MAX,
            i64::MIN <= self.y - other.y <= i64::MAX,
            i64::MIN <= self.z - other.z <= i64::MAX,
        ensures
            r.x == self.x - other.x,
            r.y == self.y - other.y,
            r.z == self.z - other.z,
    {
        SKIDVector3 { x: self.x - other.x, y: self.y - other.y, z: self.z - other.z }
    }

    /// Component-wise negation.
    pub fn neg(self) -> (r: SKIDVector3)
        requires
            self.x != i64::MIN,
            self.y != i64::MIN,
            self.z != i64::MIN,
        ensures
            r.x == -self.x,
            r.y == -self.y,
            r.z == -self.z,
    {
        SKIDVector3 { x: -self.x, y: -self.y, z: -self.z }
    }

    /// Multiplies every coordinate by a scalar.
    pub fn mul_scalar(self, scalar: i64) -> (r: SKIDVector3)
        requires
            in_coord_range(self),
            -COORD_BOUND <= scalar <= COORD_BOUND,
        ensures
            r.x == self.x * scalar,
            r.y == self.y * scalar,
            r.z == self.z * scalar,
    {
        proof {
            lemma_coord_product_bound(self.x, scalar);
            lemma_coord_product_bound(self.y, scalar);
            lemma_coord_product_bound(self.z, scalar);
        }
        SKIDVector3 { x: self.x * scalar, y: self.y * scalar, z: self.z * scalar }
    }

    /// Divides every coordinate by a scalar, rounding with Euclidean
    /// semantics. A zero divisor is a fault and is excluded up front.
    pub fn div_scalar(self, scalar: i64) -> (r: SKIDVector3)
        requires
            scalar != 0,
            in_coord_range(self),
        ensures
            r.x == self.x as int / scalar as int,
            r.y == self.y as int / scalar as int,
            r.z == self.z as int / scalar as int,
    {
        let x = div_euclid_small(self.x, scalar);
        let y = div_euclid_small(self.y, scalar);
        let z = div_euclid_small(self.z, scalar);
        SKIDVector3 { x, y, z }
    }

    /// The dot product.
    pub fn dot(&self, other: &SKIDVector3) -> (r: i64)
        requires
            in_coord_range(*self),
            in_coord_range(*other),
        ensures
            r == dot_spec(*self, *other),
    {
        proof {
            lemma_coord_product_bound(self.x, other.x);
            lemma_coord_product_bound(self.y, other.y);
            lemma_coord_product_bound(self.z, other.z);
        }
        self.x * other.x + self.y * other.y + self.z * other.z
    }

    /// The cross product, by the right-hand rule.
    pub fn cross(&self, other: &SKIDVector3) -> (r: SKIDVector3)
        requires
            in_coord_range(*self),
            in_coord_range(*other),
        ensures
            r.x == cross_x_spec(*self, *other),
            r.y == cross_y_spec(*self, *other),
            r.z == cross_z_spec(*self, *other),
    {
        proof {
            lemma_coord_product_bound(self.y, other.z);
            lemma_coord_product_bound(self.z, other.y);
            lemma_coord_product_bound(self.z, other.x);
            lemma_coord_product_bound(self.x, other.z);
            lemma_coord_product_bound(self.x, other.y);
            lemma_coord_product_bound(self.y, other.x);
        }
        SKIDVector3 {
            x: self.y * other.z - self.z * other.y,
            y: self.z * other.x - self.x * other.z,
            z: self.x * other.y - self.y * other.x,
        }
    }
}

/// Euclidean division of a bounded numerator by a nonzero divisor.
fn div_euclid_small(n: i64, d: i64) -> (q: i64)
    requires
        d != 0,
        -COORD_BOUND <= n <= COORD_BOUND,
    ensures
        q == n as int / d as int,
{
    proof {
        lemma_div_euclid_in_range(n as int, d as int);
    }
    match n.checked_div_euclid(d) {
        Some(q) => q,
        None => {
            proof {
                assert(false);
            }
            0
        },
    }
}

/// Euclidean division of a bounded numerator never leaves `i64`.
proof fn lemma_div_euclid_in_range(n: int, d: int)
    requires
        d != 0,
        -0x4000_0000 <= n <= 0x4000_0000,
    ensures
        i64::MIN <= n / d <= i64::MAX,
{
    assert(i64::MIN <= n / d <= i64::MAX) by (nonlinear_arith)
        requires
            d != 0,
            -0x4000_0000 <= n <= 0x4000_0000,
    ;
}

/// The cross product is anti-commutative: swapping its arguments negates
/// every component of the result.
pub proof fn lemma_cross_anti_commutative(a: SKIDVector3, b: SKIDVector3)
    ensures
        cross_x_spec(a, b) == -cross_x_spec(b, a),
        cross_y_spec(a, b) == -cross_y_spec(b, a),
        cross_z_spec(a, b) == -cross_z_spec(b, a),
{
}

/// The dot product of a vector with itself is its squared magnitude.
pub proof fn lemma_dot_self_is_mag_sq(v: SKIDVector3)
    ensures
        dot_spec(v, v) == mag_sq_spec(v),
{
}

} // verus!
