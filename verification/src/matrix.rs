//! 4x4 fixed-point matrices in row-major layout, multiplied as `v' = v^T * M`.
//!
//! Rotation constructors take the fixed-point cosine and sine of the angle;
//! the perspective constructor takes the fixed-point cotangent of half the
//! field of view. Those are the only trigonometric inputs the pipeline
//! needs, and the caller supplies them as plain values.

use crate::fixed::{
    fx_div, fx_div_clip, fx_mul, fxabs, fxdiv, fxdiv_clip, fxmul, lemma_fxdiv_bound,
    lemma_fxmul_bound,
};
use crate::vector::{in_geom, Vec3, Vec4};
use vstd::prelude::*;

verus! {

#[derive(Debug, Copy, Clone)]
pub struct Matrix {
    pub data: [[i64; 4]; 4],
}

/// The entry in row `i`, column `j`, as an unbounded integer.
pub open spec fn ent(m: Matrix, i: int, j: int) -> int {
    m.data[i][j] as int
}

/// All entries within the bound that lets products be summed in `i64`.
pub open spec fn mat_in_geom(m: Matrix) -> bool {
    forall|i: int, j: int| 0 <= i < 4 && 0 <= j < 4 ==> in_geom(#[trigger] ent(m, i, j))
}

/// The exact components of `v^T * M`.
pub open spec fn mv_x(m: Matrix, v: Vec4) -> int {
    fxmul(v.x as int, ent(m, 0, 0)) + fxmul(v.y as int, ent(m, 1, 0)) + fxmul(
        v.z as int,
        ent(m, 2, 0),
    ) + fxmul(v.w as int, ent(m, 3, 0))
}

pub open spec fn mv_y(m: Matrix, v: Vec4) -> int {
    fxmul(v.x as int, ent(m, 0, 1)) + fxmul(v.y as int, ent(m, 1, 1)) + fxmul(
        v.z as int,
        ent(m, 2, 1),
    ) + fxmul(v.w as int, ent(m, 3, 1))
}

pub open spec fn mv_z(m: Matrix, v: Vec4) -> int {
    fxmul(v.x as int, ent(m, 0, 2)) + fxmul(v.y as int, ent(m, 1, 2)) + fxmul(
        v.z as int,
        ent(m, 2, 2),
    ) + fxmul(v.w as int, ent(m, 3, 2))
}

pub open spec fn mv_w(m: Matrix, v: Vec4) -> int {
    fxmul(v.x as int, ent(m, 0, 3)) + fxmul(v.y as int, ent(m, 1, 3)) + fxmul(
        v.z as int,
        ent(m, 2, 3),
    ) + fxmul(v.w as int, ent(m, 3, 3))
}

/// The exact components of `M * v`: the projection path multiplies in
/// column-vector convention, which is what the perspective matrix's layout
/// (depth factors in row two, the `w`-capture in row three) is built for.
pub open spec fn cv_x(m: Matrix, v: Vec4) -> int {
    fxmul(v.x as int, ent(m, 0, 0)) + fxmul(v.y as int, ent(m, 0, 1)) + fxmul(
        v.z as int,
        ent(m, 0, 2),
    ) + fxmul(v.w as int, ent(m, 0, 3))
}

pub open spec fn cv_y(m: Matrix, v: Vec4) -> int {
    fxmul(v.x as int, ent(m, 1, 0)) + fxmul(v.y as int, ent(m, 1, 1)) + fxmul(
        v.z as int,
        ent(m, 1, 2),
    ) + fxmul(v.w as int, ent(m, 1, 3))
}

pub open spec fn cv_z(m: Matrix, v: Vec4) -> int {
    fxmul(v.x as int, ent(m, 2, 0)) + fxmul(v.y as int, ent(m, 2, 1)) + fxmul(
        v.z as int,
        ent(m, 2, 2),
    ) + fxmul(v.w as int, ent(m, 2, 3))
}

pub open spec fn cv_w(m: Matrix, v: Vec4) -> int {
    fxmul(v.x as int, ent(m, 3, 0)) + fxmul(v.y as int, ent(m, 3, 1)) + fxmul(
        v.z as int,
        ent(m, 3, 2),
    ) + fxmul(v.w as int, ent(m, 3, 3))
}

/// The exact result of projecting `v` through `m` (a column-convention
/// multiply) and perspective-dividing: when the transformed `w` is nonzero,
/// x, y and z are divided by it (saturating far outside any screen); a zero
/// `w` skips the divide and passes the raw clip coordinates through.
pub open spec fn spec_project(m: Matrix, v: Vec4) -> Vec4 {
    let x = cv_x(m, v);
    let y = cv_y(m, v);
    let z = cv_z(m, v);
    let w = cv_w(m, v);
    if w != 0 {
        Vec4 {
            x: fxdiv_clip(x, w) as i64,
            y: fxdiv_clip(y, w) as i64,
            z: fxdiv_clip(z, w) as i64,
            w: w as i64,
        }
    } else {
        Vec4 { x: x as i64, y: y as i64, z: z as i64, w: w as i64 }
    }
}

pub open spec fn vec4_in_geom(v: Vec4) -> bool {
    in_geom(v.x as int) && in_geom(v.y as int) && in_geom(v.z as int) && in_geom(v.w as int)
}

impl Matrix {
    /// The all-zero matrix.
    pub fn new() -> (r: Matrix)
        ensures
            forall|i: int, j: int| 0 <= i < 4 && 0 <= j < 4 ==> ent(r, i, j) == 0,
    {
        Matrix {
            data: [
                [0i64, 0i64, 0i64, 0i64],
                [0i64, 0i64, 0i64, 0i64],
                [0i64, 0i64, 0i64, 0i64],
                [0i64, 0i64, 0i64, 0i64],
            ],
        }
    }

    pub fn identity() -> (r: Matrix)
        ensures
            forall|i: int, j: int|
                0 <= i < 4 && 0 <= j < 4 ==> ent(r, i, j) == if i == j {
                    65536int
                } else {
                    0int
                },
    {
        Matrix {
            data: [
                [65536i64, 0i64, 0i64, 0i64],
                [0i64, 65536i64, 0i64, 0i64],
                [0i64, 0i64, 65536i64, 0i64],
                [0i64, 0i64, 0i64, 65536i64],
            ],
        }
    }

    /// A scaling matrix with `sx`, `sy`, `sz` on the diagonal.
    pub fn scale(&mut self, sx: i64, sy: i64, sz: i64) -> (r: Matrix)
        ensures
            *final(self) == *old(self),
            spec_is_scale(r, sx as int, sy as int, sz as int),
    {
        Matrix {
            data: [
                [sx, 0i64, 0i64, 0i64],
                [0i64, sy, 0i64, 0i64],
                [0i64, 0i64, sz, 0i64],
                [0i64, 0i64, 0i64, 65536i64],
            ],
        }
    }

    /// A translation matrix: the offset sits in the last row, picked up by
    /// the homogeneous coordinate.
    pub fn translate(&mut self, tx: i64, ty: i64, tz: i64) -> (r: Matrix)
        ensures
            *final(self) == *old(self),
            spec_is_translate(r, tx as int, ty as int, tz as int),
    {
        Matrix {
            data: [
                [65536i64, 0i64, 0i64, 0i64],
                [0i64, 65536i64, 0i64, 0i64],
                [0i64, 0i64, 65536i64, 0i64],
                [tx, ty, tz, 65536i64],
            ],
        }
    }

    /// A rotation about the x axis; `c` and `s` are the fixed-point cosine
    /// and sine of the angle.
    pub fn rotate_x(&mut self, c: i64, s: i64) -> (r: Matrix)
        requires
            fxabs(c as int) <= 65536,
            fxabs(s as int) <= 65536,
        ensures
            *final(self) == *old(self),
            spec_is_rotate_x(r, c as int, s as int),
    {
        Matrix {
            data: [
                [65536i64, 0i64, 0i64, 0i64],
                [0i64, c, s, 0i64],
                [0i64, -s, c, 0i64],
                [0i64, 0i64, 0i64, 65536i64],
            ],
        }
    }

    /// A rotation about the y axis.
    pub fn rotate_y(&mut self, c: i64, s: i64) -> (r: Matrix)
        requires
            fxabs(c as int) <= 65536,
            fxabs(s as int) <= 65536,
        ensures
            *final(self) == *old(self),
            spec_is_rotate_y(r, c as int, s as int),
    {
        Matrix {
            data: [
                [c, 0i64, -s, 0i64],
                [0i64, 65536i64, 0i64, 0i64],
                [s, 0i64, c, 0i64],
                [0i64, 0i64, 0i64, 65536i64],
            ],
        }
    }

    /// A rotation about the z axis.
    pub fn rotate_z(&mut self, c: i64, s: i64) -> (r: Matrix)
        requires
            fxabs(c as int) <= 65536,
            fxabs(s as int) <= 65536,
        ensures
            *final(self) == *old(self),
            spec_is_rotate_z(r, c as int, s as int),
    {
        Matrix {
            data: [
                [c, s, 0i64, 0i64],
                [-s, c, 0i64, 0i64],
                [0i64, 0i64, 65536i64, 0i64],
                [0i64, 0i64, 0i64, 65536i64],
            ],
        }
    }

    /// The perspective projection matrix. `inv_tan_half_fov` is the
    /// fixed-point cotangent of half the field of view, supplied by the
    /// caller; `aspect_ratio`, `near` and `far` are fixed-point.
    pub fn make_perspetive(inv_tan_half_fov: i64, aspect_ratio: i64, near: i64, far: i64) -> (r:
        Matrix)
        requires
            far != near,
            in_geom(inv_tan_half_fov as int),
            in_geom(aspect_ratio as int),
            in_geom(near as int),
            in_geom(far as int),
            i64::MIN <= fxdiv(-fxmul(far as int, near as int), far - near) <= i64::MAX,
        ensures
            spec_is_perspective(r, inv_tan_half_fov as int, aspect_ratio as int, near as int,
                far as int),
    {
        proof {
            lemma_fxmul_bound(aspect_ratio as int, inv_tan_half_fov as int, 0x40_0000_0000,
                0x40_0000_0000);
            lemma_fxmul_bound(far as int, near as int, 0x40_0000_0000, 0x40_0000_0000);
            lemma_fxdiv_bound(far as int, (far - near) as int, 0x40_0000_0000);
        }
        let m00: i64 = fx_mul(aspect_ratio, inv_tan_half_fov);
        let m22: i64 = fx_div(far, far - near);
        let m23: i64 = fx_div(-fx_mul(far, near), far - near);
        Matrix {
            data: [
                [m00, 0i64, 0i64, 0i64],
                [0i64, inv_tan_half_fov, 0i64, 0i64],
                [0i64, 0i64, m22, m23],
                [0i64, 0i64, 65536i64, 0i64],
            ],
        }
    }

    /// Multiplies `vector` by this matrix, storing and returning the result.
    pub fn multiply(&mut self, vector: &mut Vec4) -> (r: Vec4)
        requires
            mat_in_geom(*old(self)),
            vec4_in_geom(*old(vector)),
        ensures
            *final(self) == *old(self),
            *final(vector) == r,
            r.x == mv_x(*old(self), *old(vector)),
            r.y == mv_y(*old(self), *old(vector)),
            r.z == mv_z(*old(self), *old(vector)),
            r.w == mv_w(*old(self), *old(vector)),
    {
        proof {
            lemma_mat_vec_bounds(*self, *vector);
        }
        let x: i64 = fx_mul(vector.x, self.data[0][0]) + fx_mul(vector.y, self.data[1][0]) + fx_mul(
            vector.z,
            self.data[2][0],
        ) + fx_mul(vector.w, self.data[3][0]);
        let y: i64 = fx_mul(vector.x, self.data[0][1]) + fx_mul(vector.y, self.data[1][1]) + fx_mul(
            vector.z,
            self.data[2][1],
        ) + fx_mul(vector.w, self.data[3][1]);
        let z: i64 = fx_mul(vector.x, self.data[0][2]) + fx_mul(vector.y, self.data[1][2]) + fx_mul(
            vector.z,
            self.data[2][2],
        ) + fx_mul(vector.w, self.data[3][2]);
        let w: i64 = fx_mul(vector.x, self.data[0][3]) + fx_mul(vector.y, self.data[1][3]) + fx_mul(
            vector.z,
            self.data[2][3],
        ) + fx_mul(vector.w, self.data[3][3]);
        let result = Vec4 { x, y, z, w };
        *vector = result;
        result
    }

    /// Applies the affine part of this matrix to a point (with an implicit
    /// `w` of one), then perspective-divides unless the transformed `w` is
    /// zero.
    pub fn transform(&self, v: &Vec3) -> (r: Vec3)
        requires
            mat_in_geom(*self),
            crate::vector::vec3_in_geom(*v),
        ensures
            r == spec_transform(*self, *v),
    {
        let hv = Vec4 { x: v.x, y: v.y, z: v.z, w: 65536i64 };
        proof {
            lemma_mat_vec_bounds(*self, hv);
        }
        let x: i64 = fx_mul(hv.x, self.data[0][0]) + fx_mul(hv.y, self.data[1][0]) + fx_mul(
            hv.z,
            self.data[2][0],
        ) + fx_mul(hv.w, self.data[3][0]);
        let y: i64 = fx_mul(hv.x, self.data[0][1]) + fx_mul(hv.y, self.data[1][1]) + fx_mul(
            hv.z,
            self.data[2][1],
        ) + fx_mul(hv.w, self.data[3][1]);
        let z: i64 = fx_mul(hv.x, self.data[0][2]) + fx_mul(hv.y, self.data[1][2]) + fx_mul(
            hv.z,
            self.data[2][2],
        ) + fx_mul(hv.w, self.data[3][2]);
        let w: i64 = fx_mul(hv.x, self.data[0][3]) + fx_mul(hv.y, self.data[1][3]) + fx_mul(
            hv.z,
            self.data[2][3],
        ) + fx_mul(hv.w, self.data[3][3]);
        if w != 0 {
            Vec3 { x: fx_div_clip(x, w), y: fx_div_clip(y, w), z: fx_div_clip(z, w) }
        } else {
            Vec3 { x, y, z }
        }
    }

    /// Multiplies a homogeneous point by this matrix in column-vector
    /// convention (each component is a row of the matrix dotted with the
    /// point, which is the convention the perspective matrix's layout
    /// expects) and performs the perspective divide, skipped when the
    /// transformed `w` is zero.
    pub fn multiply_vec4_projection(&mut self, v: &Vec4) -> (r: Vec4)
        requires
            mat_in_geom(*old(self)),
            vec4_in_geom(*v),
        ensures
            *final(self) == *old(self),
            r == spec_project(*old(self), *v),
    {
        proof {
            lemma_row_bounds(*self, *v, 0);
            lemma_row_bounds(*self, *v, 1);
            lemma_row_bounds(*self, *v, 2);
            lemma_row_bounds(*self, *v, 3);
        }
        let x: i64 = fx_mul(v.x, self.data[0][0]) + fx_mul(v.y, self.data[0][1]) + fx_mul(
            v.z,
            self.data[0][2],
        ) + fx_mul(v.w, self.data[0][3]);
        let y: i64 = fx_mul(v.x, self.data[1][0]) + fx_mul(v.y, self.data[1][1]) + fx_mul(
            v.z,
            self.data[1][2],
        ) + fx_mul(v.w, self.data[1][3]);
        let z: i64 = fx_mul(v.x, self.data[2][0]) + fx_mul(v.y, self.data[2][1]) + fx_mul(
            v.z,
            self.data[2][2],
        ) + fx_mul(v.w, self.data[2][3]);
        let w: i64 = fx_mul(v.x, self.data[3][0]) + fx_mul(v.y, self.data[3][1]) + fx_mul(
            v.z,
            self.data[3][2],
        ) + fx_mul(v.w, self.data[3][3]);
        let mut result = Vec4 { x, y, z, w };
        if result.w != 0 {
            result.x = fx_div_clip(result.x, result.w);
            result.y = fx_div_clip(result.y, result.w);
            result.z = fx_div_clip(result.z, result.w);
        }
        result
    }
}

/// The exact result of `Matrix::transform`.
pub open spec fn spec_transform(m: Matrix, v: Vec3) -> Vec3 {
    let hv = Vec4 { x: v.x, y: v.y, z: v.z, w: 65536i64 };
    let x = mv_x(m, hv);
    let y = mv_y(m, hv);
    let z = mv_z(m, hv);
    let w = mv_w(m, hv);
    if w != 0 {
        Vec3 { x: fxdiv_clip(x, w) as i64, y: fxdiv_clip(y, w) as i64, z: fxdiv_clip(z, w) as i64 }
    } else {
        Vec3 { x: x as i64, y: y as i64, z: z as i64 }
    }
}

pub open spec fn spec_is_scale(m: Matrix, sx: int, sy: int, sz: int) -> bool {
    &&& ent(m, 0, 0) == sx
    &&& ent(m, 1, 1) == sy
    &&& ent(m, 2, 2) == sz
    &&& ent(m, 3, 3) == 65536
    &&& forall|i: int, j: int|
        0 <= i < 4 && 0 <= j < 4 && i != j ==> ent(m, i, j) == 0
}

pub open spec fn spec_is_translate(m: Matrix, tx: int, ty: int, tz: int) -> bool {
    &&& ent(m, 3, 0) == tx
    &&& ent(m, 3, 1) == ty
    &&& ent(m, 3, 2) == tz
    &&& forall|i: int| 0 <= i < 4 ==> ent(m, i, i) == 65536
    &&& forall|i: int, j: int|
        0 <= i < 3 && 0 <= j < 4 && i != j ==> ent(m, i, j) == 0
    &&& ent(m, 3, 3) == 65536
}

pub open spec fn spec_is_rotate_x(m: Matrix, c: int, s: int) -> bool {
    &&& ent(m, 0, 0) == 65536
    &&& ent(m, 1, 1) == c
    &&& ent(m, 1, 2) == s
    &&& ent(m, 2, 1) == -s
    &&& ent(m, 2, 2) == c
    &&& ent(m, 3, 3) == 65536
    &&& ent(m, 0, 1) == 0 && ent(m, 0, 2) == 0 && ent(m, 0, 3) == 0
    &&& ent(m, 1, 0) == 0 && ent(m, 1, 3) == 0
    &&& ent(m, 2, 0) == 0 && ent(m, 2, 3) == 0
    &&& ent(m, 3, 0) == 0 && ent(m, 3, 1) == 0 && ent(m, 3, 2) == 0
}

pub open spec fn spec_is_rotate_y(m: Matrix, c: int, s: int) -> bool {
    &&& ent(m, 0, 0) == c
    &&& ent(m, 0, 2) == -s
    &&& ent(m, 1, 1) == 65536
    &&& ent(m, 2, 0) == s
    &&& ent(m, 2, 2) == c
    &&& ent(m, 3, 3) == 65536
    &&& ent(m, 0, 1) == 0 && ent(m, 0, 3) == 0
    &&& ent(m, 1, 0) == 0 && ent(m, 1, 2) == 0 && ent(m, 1, 3) == 0
    &&& ent(m, 2, 1) == 0 && ent(m, 2, 3) == 0
    &&& ent(m, 3, 0) == 0 && ent(m, 3, 1) == 0 && ent(m, 3, 2) == 0
}

pub open spec fn spec_is_rotate_z(m: Matrix, c: int, s: int) -> bool {
    &&& ent(m, 0, 0) == c
    &&& ent(m, 0, 1) == s
    &&& ent(m, 1, 0) == -s
    &&& ent(m, 1, 1) == c
    &&& ent(m, 2, 2) == 65536
    &&& ent(m, 3, 3) == 65536
    &&& ent(m, 0, 2) == 0 && ent(m, 0, 3) == 0
    &&& ent(m, 1, 2) == 0 && ent(m, 1, 3) == 0
    &&& ent(m, 2, 0) == 0 && ent(m, 2, 1) == 0 && ent(m, 2, 3) == 0
    &&& ent(m, 3, 0) == 0 && ent(m, 3, 1) == 0 && ent(m, 3, 2) == 0
}

pub open spec fn spec_is_perspective(m: Matrix, cot: int, aspect: int, near: int, far: int) -> bool {
    &&& ent(m, 0, 0) == fxmul(aspect, cot)
    &&& ent(m, 1, 1) == cot
    &&& ent(m, 2, 2) == fxdiv(far, far - near)
    &&& ent(m, 2, 3) == fxdiv(-fxmul(far, near), far - near)
    &&& ent(m, 3, 2) == 65536
    &&& ent(m, 0, 1) == 0 && ent(m, 0, 2) == 0 && ent(m, 0, 3) == 0
    &&& ent(m, 1, 0) == 0 && ent(m, 1, 2) == 0 && ent(m, 1, 3) == 0
    &&& ent(m, 2, 0) == 0 && ent(m, 2, 1) == 0
    &&& ent(m, 3, 0) == 0 && ent(m, 3, 1) == 0 && ent(m, 3, 3) == 0
}

/// The numerator of the normalized depth a perspective matrix produces:
/// with entries `m22 == far/(far-near)` and `m23 == -far*near/(far-near)`
/// and the transformed `w` equal to `z`, the depth after the divide is
/// `(m22*z + m23)/z == depth_num(z)/depth_den(z)` in exact arithmetic.
pub open spec fn depth_num(z: int, near: int, far: int) -> int {
    far * (z - near)
}

pub open spec fn depth_den(z: int, near: int, far: int) -> int {
    z * (far - near)
}

/// The perspective mapping sends the near plane to normalized depth zero
/// and the far plane to one, and keeps every depth between the two planes
/// inside that range (stated in exact arithmetic; the fixed-point matrix
/// entries round each fraction toward zero).
pub proof fn lemma_perspective_depth_range(z: int, near: int, far: int)
    requires
        0 < near <= z <= far,
    ensures
        depth_num(near, near, far) == 0,
        depth_num(far, near, far) == depth_den(far, near, far),
        0 <= depth_num(z, near, far) <= depth_den(z, near, far),
{
    assert(far * (near - near) == 0) by (nonlinear_arith);
    assert(0 <= far * (z - near)) by (nonlinear_arith)
        requires
            0 < near <= z <= far,
    ;
    assert(far * (z - near) <= z * (far - near)) by (nonlinear_arith)
        requires
            0 < near <= z <= far,
    ;
}

/// Every product of one matrix row with the point's components is small
/// enough that the row's four-term sum fits comfortably in an `i64`.
proof fn lemma_row_bounds(m: Matrix, v: Vec4, i: int)
    requires
        mat_in_geom(m),
        vec4_in_geom(v),
        0 <= i < 4,
    ensures
        fxabs(fxmul(v.x as int, ent(m, i, 0))) <= 0x1000_0000_0000_0000,
        fxabs(fxmul(v.y as int, ent(m, i, 1))) <= 0x1000_0000_0000_0000,
        fxabs(fxmul(v.z as int, ent(m, i, 2))) <= 0x1000_0000_0000_0000,
        fxabs(fxmul(v.w as int, ent(m, i, 3))) <= 0x1000_0000_0000_0000,
{
    assert(in_geom(ent(m, i, 0)) && in_geom(ent(m, i, 1)) && in_geom(ent(m, i, 2)) && in_geom(
        ent(m, i, 3),
    ));
    lemma_fxmul_bound(v.x as int, ent(m, i, 0), 0x40_0000_0000, 0x40_0000_0000);
    lemma_fxmul_bound(v.y as int, ent(m, i, 1), 0x40_0000_0000, 0x40_0000_0000);
    lemma_fxmul_bound(v.z as int, ent(m, i, 2), 0x40_0000_0000, 0x40_0000_0000);
    lemma_fxmul_bound(v.w as int, ent(m, i, 3), 0x40_0000_0000, 0x40_0000_0000);
}

/// Every product in one column of `v^T * M` is small enough that the
/// column's four-term sum fits comfortably in an `i64`.
proof fn lemma_col_bounds(m: Matrix, v: Vec4, j: int)
    requires
        mat_in_geom(m),
        vec4_in_geom(v),
        0 <= j < 4,
    ensures
        fxabs(fxmul(v.x as int, ent(m, 0, j))) <= 0x1000_0000_0000_0000,
        fxabs(fxmul(v.y as int, ent(m, 1, j))) <= 0x1000_0000_0000_0000,
        fxabs(fxmul(v.z as int, ent(m, 2, j))) <= 0x1000_0000_0000_0000,
        fxabs(fxmul(v.w as int, ent(m, 3, j))) <= 0x1000_0000_0000_0000,
{
    assert(in_geom(ent(m, 0, j)) && in_geom(ent(m, 1, j)) && in_geom(ent(m, 2, j)) && in_geom(
        ent(m, 3, j),
    ));
    lemma_fxmul_bound(v.x as int, ent(m, 0, j), 0x40_0000_0000, 0x40_0000_0000);
    lemma_fxmul_bound(v.y as int, ent(m, 1, j), 0x40_0000_0000, 0x40_0000_0000);
    lemma_fxmul_bound(v.z as int, ent(m, 2, j), 0x40_0000_0000, 0x40_0000_0000);
    lemma_fxmul_bound(v.w as int, ent(m, 3, j), 0x40_0000_0000, 0x40_0000_0000);
}

/// All four columns at once.
pub proof fn lemma_mat_vec_bounds(m: Matrix, v: Vec4)
    requires
        mat_in_geom(m),
        vec4_in_geom(v),
    ensures
        fxabs(fxmul(v.x as int, ent(m, 0, 0))) <= 0x1000_0000_0000_0000,
        fxabs(fxmul(v.y as int, ent(m, 1, 0))) <= 0x1000_0000_0000_0000,
        fxabs(fxmul(v.z as int, ent(m, 2, 0))) <= 0x1000_0000_0000_0000,
        fxabs(fxmul(v.w as int, ent(m, 3, 0))) <= 0x1000_0000_0000_0000,
        fxabs(fxmul(v.x as int, ent(m, 0, 1))) <= 0x1000_0000_0000_0000,
        fxabs(fxmul(v.y as int, ent(m, 1, 1))) <= 0x1000_0000_0000_0000,
        fxabs(fxmul(v.z as int, ent(m, 2, 1))) <= 0x1000_0000_0000_0000,
        fxabs(fxmul(v.w as int, ent(m, 3, 1))) <= 0x1000_0000_0000_0000,
        fxabs(fxmul(v.x as int, ent(m, 0, 2))) <= 0x1000_0000_0000_0000,
        fxabs(fxmul(v.y as int, ent(m, 1, 2))) <= 0x1000_0000_0000_0000,
        fxabs(fxmul(v.z as int, ent(m, 2, 2))) <= 0x1000_0000_0000_0000,
        fxabs(fxmul(v.w as int, ent(m, 3, 2))) <= 0x1000_0000_0000_0000,
        fxabs(fxmul(v.x as int, ent(m, 0, 3))) <= 0x1000_0000_0000_0000,
        fxabs(fxmul(v.y as int, ent(m, 1, 3))) <= 0x1000_0000_0000_0000,
        fxabs(fxmul(v.z as int, ent(m, 2, 3))) <= 0x1000_0000_0000_0000,
        fxabs(fxmul(v.w as int, ent(m, 3, 3))) <= 0x1000_0000_0000_0000,
        fxabs(mv_x(m, v)) <= 0x4000_0000_0000_0000,
        fxabs(mv_y(m, v)) <= 0x4000_0000_0000_0000,
        fxabs(mv_z(m, v)) <= 0x4000_0000_0000_0000,
        fxabs(mv_w(m, v)) <= 0x4000_0000_0000_0000,
{
    lemma_col_bounds(m, v, 0);
    lemma_col_bounds(m, v, 1);
    lemma_col_bounds(m, v, 2);
    lemma_col_bounds(m, v, 3);
}

} // verus!
