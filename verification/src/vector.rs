//! Fixed-point 2D, 3D and 4D vectors.
//!
//! Components are 16.16 fixed-point values (`crate::fixed`). Every operation
//! states its exact result; operations that sum products additionally ask
//! that their inputs lie within `GEOM_MAX`, which keeps all intermediate
//! arithmetic inside `i64`.

use crate::fixed::{
    fx_div, fx_mul, fxabs, fxdiv, fxmul, isqrt, lemma_fxdiv_unit_bound, lemma_fxmul_bound,
    lemma_sqrt_floor_bounds, sqrt_floor,
};
use vstd::prelude::*;

verus! {

/// Magnitude bound under which sums of three fixed-point products still fit
/// in an `i64` (2^38, about four million in real units).
pub const GEOM_MAX: i64 = 0x40_0000_0000;

/// A component small enough for product-summing operations.
pub open spec fn in_geom(v: int) -> bool {
    -0x40_0000_0000 <= v <= 0x40_0000_0000
}

#[derive(Debug, Copy, Clone, PartialEq, Eq, Structural)]
pub struct Vec2 {
    pub x: i64,
    pub y: i64,
}

#[derive(Debug, Copy, Clone, PartialEq, Eq, Structural)]
pub struct Vec3 {
    pub x: i64,
    pub y: i64,
    pub z: i64,
}

#[derive(Debug, Copy, Clone, PartialEq, Eq, Structural)]
pub struct Vec4 {
    pub x: i64,
    pub y: i64,
    pub z: i64,
    pub w: i64,
}

pub open spec fn vec2_in_geom(v: Vec2) -> bool {
    in_geom(v.x as int) && in_geom(v.y as int)
}

pub open spec fn vec3_in_geom(v: Vec3) -> bool {
    in_geom(v.x as int) && in_geom(v.y as int) && in_geom(v.z as int)
}

/// The exact squared length of a 3D vector, over unbounded integers.
pub open spec fn norm3_sq(x: int, y: int, z: int) -> int {
    x * x + y * y + z * z
}

/// The exact fixed-point length of a 3D vector: because components carry a
/// common factor of 65536, the square root of the raw squared sum is again
/// a fixed-point value.
pub open spec fn len3(x: int, y: int, z: int) -> int {
    sqrt_floor(norm3_sq(x, y, z) as nat) as int
}

pub open spec fn len2(x: int, y: int) -> int {
    sqrt_floor((x * x + y * y) as nat) as int
}

impl Vec2 {
    pub fn new(x: i64, y: i64) -> (r: Vec2)
        ensures
            r == (Vec2 { x, y }),
    {
        Vec2 { x, y }
    }

    pub fn dot(&self, other: Vec2) -> (r: i64)
        requires
            vec2_in_geom(*self),
            vec2_in_geom(other),
        ensures
            r == fxmul(self.x as int, other.x as int) + fxmul(self.y as int, other.y as int),
    {
        proof {
            lemma_fxmul_bound(self.x as int, other.x as int, 0x40_0000_0000, 0x40_0000_0000);
            lemma_fxmul_bound(self.y as int, other.y as int, 0x40_0000_0000, 0x40_0000_0000);
        }
        fx_mul(self.x, other.x) + fx_mul(self.y, other.y)
    }

    pub fn sub(&self, other: Vec2) -> (r: Vec2)
        requires
            i64::MIN <= self.x - other.x <= i64::MAX,
            i64::MIN <= self.y - other.y <= i64::MAX,
        ensures
            r.x == self.x - other.x,
            r.y == self.y - other.y,
    {
        Vec2 { x: self.x - other.x, y: self.y - other.y }
    }

    pub fn add(&self, other: Vec2) -> (r: Vec2)
        requires
            i64::MIN <= self.x + other.x <= i64::MAX,
            i64::MIN <= self.y + other.y <= i64::MAX,
        ensures
            r.x == self.x + other.x,
            r.y == self.y + other.y,
    {
        Vec2 { x: self.x + other.x, y: self.y + other.y }
    }

    pub fn mul(&self, scalar: i64) -> (r: Vec2)
        requires
            vec2_in_geom(*self),
            in_geom(scalar as int),
        ensures
            r.x == fxmul(self.x as int, scalar as int),
            r.y == fxmul(self.y as int, scalar as int),
    {
        proof {
            lemma_fxmul_bound(self.x as int, scalar as int, 0x40_0000_0000, 0x40_0000_0000);
            lemma_fxmul_bound(self.y as int, scalar as int, 0x40_0000_0000, 0x40_0000_0000);
        }
        Vec2 { x: fx_mul(self.x, scalar), y: fx_mul(self.y, scalar) }
    }

    pub fn div(&self, scalar: i64) -> (r: Vec2)
        requires
            scalar != 0,
            i64::MIN <= fxdiv(self.x as int, scalar as int) <= i64::MAX,
            i64::MIN <= fxdiv(self.y as int, scalar as int) <= i64::MAX,
        ensures
            r.x == fxdiv(self.x as int, scalar as int),
            r.y == fxdiv(self.y as int, scalar as int),
    {
        Vec2 { x: fx_div(self.x, scalar), y: fx_div(self.y, scalar) }
    }

    pub fn len(&self) -> (r: i64)
        requires
            vec2_in_geom(*self),
        ensures
            r == len2(self.x as int, self.y as int),
            0 <= r,
    {
        proof {
            lemma_square_bound(self.x as int, 0x40_0000_0000);
            lemma_square_bound(self.y as int, 0x40_0000_0000);
        }
        let xx: i128 = (self.x as i128) * (self.x as i128);
        let yy: i128 = (self.y as i128) * (self.y as i128);
        let s: u128 = (xx as u128) + (yy as u128);
        proof {
            lemma_sqrt_floor_bounds(s as nat);
            assert(sqrt_floor(s as nat) < 0x8000_0000_0000_0000) by (nonlinear_arith)
                requires
                    sqrt_floor(s as nat) * sqrt_floor(s as nat) <= s as nat,
                    s < 0x8000_0000_0000_0000 * 0x8000_0000_0000_0000,
            ;
        }
        isqrt(s) as i64
    }
}

/// `|x| <= m` gives `0 <= x * x <= m * m`.
pub proof fn lemma_square_bound(x: int, m: int)
    by (nonlinear_arith)
    requires
        fxabs(x) <= m,
    ensures
        0 <= x * x <= m * m,
{
}

impl Vec3 {
    pub fn new(x: i64, y: i64, z: i64) -> (r: Vec3)
        ensures
            r == (Vec3 { x, y, z }),
    {
        Vec3 { x, y, z }
    }

    /// Right-handed rotation about the x axis; `c` and `s` are the
    /// fixed-point cosine and sine of the angle.
    pub fn rotate_x(&self, c: i64, s: i64) -> (r: Vec3)
        requires
            vec3_in_geom(*self),
            fxabs(c as int) <= 65536,
            fxabs(s as int) <= 65536,
        ensures
            r.x == self.x,
            r.y == fxmul(self.y as int, c as int) - fxmul(self.z as int, s as int),
            r.z == fxmul(self.y as int, s as int) + fxmul(self.z as int, c as int),
    {
        proof {
            lemma_fxmul_bound(self.y as int, c as int, 0x40_0000_0000, 65536);
            lemma_fxmul_bound(self.z as int, s as int, 0x40_0000_0000, 65536);
            lemma_fxmul_bound(self.y as int, s as int, 0x40_0000_0000, 65536);
            lemma_fxmul_bound(self.z as int, c as int, 0x40_0000_0000, 65536);
        }
        let y: i64 = fx_mul(self.y, c) - fx_mul(self.z, s);
        let z: i64 = fx_mul(self.y, s) + fx_mul(self.z, c);
        Vec3 { x: self.x, y, z }
    }

    /// Right-handed rotation about the y axis.
    pub fn rotate_y(&self, c: i64, s: i64) -> (r: Vec3)
        requires
            vec3_in_geom(*self),
            fxabs(c as int) <= 65536,
            fxabs(s as int) <= 65536,
        ensures
            r.x == fxmul(self.x as int, c as int) + fxmul(self.z as int, s as int),
            r.y == self.y,
            r.z == -fxmul(self.x as int, s as int) + fxmul(self.z as int, c as int),
    {
        proof {
            lemma_fxmul_bound(self.x as int, c as int, 0x40_0000_0000, 65536);
            lemma_fxmul_bound(self.z as int, s as int, 0x40_0000_0000, 65536);
            lemma_fxmul_bound(self.x as int, s as int, 0x40_0000_0000, 65536);
            lemma_fxmul_bound(self.z as int, c as int, 0x40_0000_0000, 65536);
        }
        let x: i64 = fx_mul(self.x, c) + fx_mul(self.z, s);
        let z: i64 = -fx_mul(self.x, s) + fx_mul(self.z, c);
        Vec3 { x, y: self.y, z }
    }

    /// Right-handed rotation about the z axis.
    pub fn rotate_z(&self, c: i64, s: i64) -> (r: Vec3)
        requires
            vec3_in_geom(*self),
            fxabs(c as int) <= 65536,
            fxabs(s as int) <= 65536,
        ensures
            r.x == fxmul(self.x as int, c as int) - fxmul(self.y as int, s as int),
            r.y == fxmul(self.x as int, s as int) + fxmul(self.y as int, c as int),
            r.z == self.z,
    {
        proof {
            lemma_fxmul_bound(self.x as int, c as int, 0x40_0000_0000, 65536);
            lemma_fxmul_bound(self.y as int, s as int, 0x40_0000_0000, 65536);
            lemma_fxmul_bound(self.x as int, s as int, 0x40_0000_0000, 65536);
            lemma_fxmul_bound(self.y as int, c as int, 0x40_0000_0000, 65536);
        }
        let x: i64 = fx_mul(self.x, c) - fx_mul(self.y, s);
        let y: i64 = fx_mul(self.x, s) + fx_mul(self.y, c);
        Vec3 { x, y, z: self.z }
    }

    pub fn dot(&self, other: Vec3) -> (r: i64)
        requires
            vec3_in_geom(*self),
            vec3_in_geom(other),
        ensures
            r == fxmul(self.x as int, other.x as int) + fxmul(self.y as int, other.y as int)
                + fxmul(self.z as int, other.z as int),
    {
        proof {
            lemma_fxmul_bound(self.x as int, other.x as int, 0x40_0000_0000, 0x40_0000_0000);
            lemma_fxmul_bound(self.y as int, other.y as int, 0x40_0000_0000, 0x40_0000_0000);
            lemma_fxmul_bound(self.z as int, other.z as int, 0x40_0000_0000, 0x40_0000_0000);
        }
        fx_mul(self.x, other.x) + fx_mul(self.y, other.y) + fx_mul(self.z, other.z)
    }

    pub fn sub(&self, other: Vec3) -> (r: Vec3)
        requires
            i64::MIN <= self.x - other.x <= i64::MAX,
            i64::MIN <= self.y - other.y <= i64::MAX,
            i64::MIN <= self.z - other.z <= i64::MAX,
        ensures
            r.x == self.x - other.x,
            r.y == self.y - other.y,
            r.z == self.z - other.z,
    {
        Vec3 { x: self.x - other.x, y: self.y - other.y, z: self.z - other.z }
    }

    pub fn add(&self, other: Vec3) -> (r: Vec3)
        requires
            i64::MIN <= self.x + other.x <= i64::MAX,
            i64::MIN <= self.y + other.y <= i64::MAX,
            i64::MIN <= self.z + other.z <= i64::MAX,
        ensures
            r.x == self.x + other.x,
            r.y == self.y + other.y,
            r.z == self.z + other.z,
    {
        Vec3 { x: self.x + other.x, y: self.y + other.y, z: self.z + other.z }
    }

    pub fn mul(&self, scalar: i64) -> (r: Vec3)
        requires
            vec3_in_geom(*self),
            in_geom(scalar as int),
        ensures
            r.x == fxmul(self.x as int, scalar as int),
            r.y == fxmul(self.y as int, scalar as int),
            r.z == fxmul(self.z as int, scalar as int),
    {
        proof {
            lemma_fxmul_bound(self.x as int, scalar as int, 0x40_0000_0000, 0x40_0000_0000);
            lemma_fxmul_bound(self.y as int, scalar as int, 0x40_0000_0000, 0x40_0000_0000);
            lemma_fxmul_bound(self.z as int, scalar as int, 0x40_0000_0000, 0x40_0000_0000);
        }
        Vec3 {
            x: fx_mul(self.x, scalar),
            y: fx_mul(self.y, scalar),
            z: fx_mul(self.z, scalar),
        }
    }

    pub fn div(&self, scalar: i64) -> (r: Vec3)
        requires
            scalar != 0,
            i64::MIN <= fxdiv(self.x as int, scalar as int) <= i64::MAX,
            i64::MIN <= fxdiv(self.y as int, scalar as int) <= i64::MAX,
            i64::MIN <= fxdiv(self.z as int, scalar as int) <= i64::MAX,
        ensures
            r.x == fxdiv(self.x as int, scalar as int),
            r.y == fxdiv(self.y as int, scalar as int),
            r.z == fxdiv(self.z as int, scalar as int),
    {
        Vec3 {
            x: fx_div(self.x, scalar),
            y: fx_div(self.y, scalar),
            z: fx_div(self.z, scalar),
        }
    }

    pub fn len(&self) -> (r: i64)
        requires
            vec3_in_geom(*self),
        ensures
            r == len3(self.x as int, self.y as int, self.z as int),
            0 <= r,
            fxabs(self.x as int) <= r,
            fxabs(self.y as int) <= r,
            fxabs(self.z as int) <= r,
    {
        proof {
            lemma_square_bound(self.x as int, 0x40_0000_0000);
            lemma_square_bound(self.y as int, 0x40_0000_0000);
            lemma_square_bound(self.z as int, 0x40_0000_0000);
        }
        let xx: i128 = (self.x as i128) * (self.x as i128);
        let yy: i128 = (self.y as i128) * (self.y as i128);
        let zz: i128 = (self.z as i128) * (self.z as i128);
        let s: u128 = (xx as u128) + (yy as u128) + (zz as u128);
        proof {
            lemma_sqrt_floor_bounds(s as nat);
            let r = sqrt_floor(s as nat) as int;
            assert(r < 0x8000_0000_0000_0000) by (nonlinear_arith)
                requires
                    0 <= r,
                    r * r <= s as nat,
                    s < 0x8000_0000_0000_0000 * 0x8000_0000_0000_0000,
            ;
            assert(fxabs(self.x as int) <= r && fxabs(self.y as int) <= r && fxabs(
                self.z as int,
            ) <= r) by (nonlinear_arith)
                requires
                    0 <= r,
                    s == norm3_sq(self.x as int, self.y as int, self.z as int),
                    s < (r + 1) * (r + 1),
            ;
        }
        isqrt(s) as i64
    }

    /// Scales the vector to unit length; the zero vector (which has no
    /// direction) is returned unchanged.
    pub fn normalize(&self) -> (r: Vec3)
        requires
            vec3_in_geom(*self),
        ensures
            r == spec_normalize(*self),
            fxabs(r.x as int) <= 65536,
            fxabs(r.y as int) <= 65536,
            fxabs(r.z as int) <= 65536,
    {
        let l: i64 = self.len();
        if l == 0 {
            Vec3 { x: 0, y: 0, z: 0 }
        } else {
            proof {
                lemma_fxdiv_unit_bound(self.x as int, l as int);
                lemma_fxdiv_unit_bound(self.y as int, l as int);
                lemma_fxdiv_unit_bound(self.z as int, l as int);
            }
            self.div(l)
        }
    }

    pub fn cross(&self, other: Vec3) -> (r: Vec3)
        requires
            vec3_in_geom(*self),
            vec3_in_geom(other),
        ensures
            r.x == fxmul(self.y as int, other.z as int) - fxmul(self.z as int, other.y as int),
            r.y == fxmul(self.z as int, other.x as int) - fxmul(self.x as int, other.z as int),
            r.z == fxmul(self.x as int, other.y as int) - fxmul(self.y as int, other.x as int),
    {
        proof {
            lemma_fxmul_bound(self.y as int, other.z as int, 0x40_0000_0000, 0x40_0000_0000);
            lemma_fxmul_bound(self.z as int, other.y as int, 0x40_0000_0000, 0x40_0000_0000);
            lemma_fxmul_bound(self.z as int, other.x as int, 0x40_0000_0000, 0x40_0000_0000);
            lemma_fxmul_bound(self.x as int, other.z as int, 0x40_0000_0000, 0x40_0000_0000);
            lemma_fxmul_bound(self.x as int, other.y as int, 0x40_0000_0000, 0x40_0000_0000);
            lemma_fxmul_bound(self.y as int, other.x as int, 0x40_0000_0000, 0x40_0000_0000);
        }
        Vec3 {
            x: fx_mul(self.y, other.z) - fx_mul(self.z, other.y),
            y: fx_mul(self.z, other.x) - fx_mul(self.x, other.z),
            z: fx_mul(self.x, other.y) - fx_mul(self.y, other.x),
        }
    }

    /// Drops the homogeneous coordinate.
    pub fn from_vec4(v: Vec4) -> (r: Vec3)
        ensures
            r == (Vec3 { x: v.x, y: v.y, z: v.z }),
    {
        Vec3 { x: v.x, y: v.y, z: v.z }
    }
}

/// The exact result of `Vec3::sub` (total: clipped to `i64` where a caller
/// has not excluded overflow).
pub open spec fn spec_sub3(a: Vec3, b: Vec3) -> Vec3 {
    Vec3 { x: (a.x - b.x) as i64, y: (a.y - b.y) as i64, z: (a.z - b.z) as i64 }
}

/// The exact result of `Vec3::dot`.
pub open spec fn spec_dot3(a: Vec3, b: Vec3) -> int {
    fxmul(a.x as int, b.x as int) + fxmul(a.y as int, b.y as int) + fxmul(a.z as int, b.z as int)
}

/// The exact result of `Vec3::cross`.
pub open spec fn spec_cross(a: Vec3, b: Vec3) -> Vec3 {
    Vec3 {
        x: (fxmul(a.y as int, b.z as int) - fxmul(a.z as int, b.y as int)) as i64,
        y: (fxmul(a.z as int, b.x as int) - fxmul(a.x as int, b.z as int)) as i64,
        z: (fxmul(a.x as int, b.y as int) - fxmul(a.y as int, b.x as int)) as i64,
    }
}

/// Rotations are isometries: over exact integer arithmetic (components and
/// the sine/cosine pair carrying a common scale factor, products unrounded),
/// rotating about an axis preserves the squared length. The executable
/// rotations approximate this by rounding each product toward zero.
#[verifier::rlimit(100)]
pub proof fn lemma_rotation_preserves_square_length(x: int, y: int, z: int, c: int, s: int)
    requires
        c * c + s * s == 65536 * 65536,
    ensures
        (y * c - z * s) * (y * c - z * s) + (y * s + z * c) * (y * s + z * c) + (x * 65536) * (x
            * 65536) == (x * x + y * y + z * z) * (65536 * 65536),
{
    assert((y * c - z * s) * (y * c - z * s) == (y * c) * (y * c) - 2 * ((y * c) * (z * s)) + (z
        * s) * (z * s)) by (nonlinear_arith);
    assert((y * s + z * c) * (y * s + z * c) == (y * s) * (y * s) + 2 * ((y * s) * (z * c)) + (z
        * c) * (z * c)) by (nonlinear_arith);
    assert((y * c) * (z * s) == (y * s) * (z * c)) by (nonlinear_arith);
    assert((y * c) * (y * c) == (y * y) * (c * c)) by (nonlinear_arith);
    assert((z * s) * (z * s) == (z * z) * (s * s)) by (nonlinear_arith);
    assert((y * s) * (y * s) == (y * y) * (s * s)) by (nonlinear_arith);
    assert((z * c) * (z * c) == (z * z) * (c * c)) by (nonlinear_arith);
    assert((y * y) * (c * c) + (y * y) * (s * s) == (y * y) * (c * c + s * s)) by (nonlinear_arith);
    assert((z * z) * (c * c) + (z * z) * (s * s) == (z * z) * (c * c + s * s)) by (nonlinear_arith);
    assert((y * y) * (c * c + s * s) == (y * y) * (65536 * 65536)) by (nonlinear_arith)
        requires
            c * c + s * s == 65536 * 65536,
    ;
    assert((z * z) * (c * c + s * s) == (z * z) * (65536 * 65536)) by (nonlinear_arith)
        requires
            c * c + s * s == 65536 * 65536,
    ;
    assert((x * 65536) * (x * 65536) == (x * x) * (65536 * 65536)) by (nonlinear_arith);
    assert((y * y) * (65536 * 65536) + (z * z) * (65536 * 65536) + (x * x) * (65536 * 65536) == (x
        * x + y * y + z * z) * (65536 * 65536)) by (nonlinear_arith);
}

/// The exact result of `Vec3::normalize`.
pub open spec fn spec_normalize(v: Vec3) -> Vec3 {
    let l = len3(v.x as int, v.y as int, v.z as int);
    if l == 0 {
        Vec3 { x: 0, y: 0, z: 0 }
    } else {
        Vec3 {
            x: fxdiv(v.x as int, l) as i64,
            y: fxdiv(v.y as int, l) as i64,
            z: fxdiv(v.z as int, l) as i64,
        }
    }
}

impl Vec4 {
    pub fn new(x: i64, y: i64, z: i64, w: i64) -> (r: Vec4)
        ensures
            r == (Vec4 { x, y, z, w }),
    {
        Vec4 { x, y, z, w }
    }

    /// Lifts a point to homogeneous form with `w = 1`.
    pub fn from_vec3(v: Vec3) -> (r: Vec4)
        ensures
            r == (Vec4 { x: v.x, y: v.y, z: v.z, w: 65536 }),
    {
        Vec4 { x: v.x, y: v.y, z: v.z, w: 65536 }
    }
}

} // verus!
