use rasterizer::fixed::{
    fx_div, fx_div_clip, fx_from_int, fx_mul, fx_to_i32, fx_trunc, isqrt, FX_CLIP, FX_ONE,
};
use rasterizer::vector::GEOM_MAX;
use rasterizer::matrix::Matrix;
use rasterizer::vector::{Vec2, Vec3, Vec4};

const FX: i64 = 65536;

fn fx_of(v: f64) -> i64 {
    (v * 65536.0) as i64
}

fn to_f(v: i64) -> f64 {
    v as f64 / 65536.0
}

#[test]
fn fixed_point_arithmetic_is_exact_on_whole_numbers() {
    assert_eq!(FX_ONE, FX);
    assert_eq!(fx_mul(3 * FX, 4 * FX), 12 * FX);
    assert_eq!(fx_mul(-3 * FX, 4 * FX), -12 * FX);
    assert_eq!(fx_div(12 * FX, 4 * FX), 3 * FX);
    assert_eq!(fx_div(-12 * FX, 4 * FX), -3 * FX);
    assert_eq!(fx_div(12 * FX, -4 * FX), -3 * FX);
    assert_eq!(fx_from_int(7), 7 * FX);
    assert_eq!(fx_trunc(7 * FX + 123), 7);
    assert_eq!(fx_trunc(-7 * FX - 123), -7);
    assert_eq!(fx_to_i32(3 * FX + 65535), 3);
    assert_eq!(fx_to_i32(-(3 * FX + 65535)), -3);
}

#[test]
fn perspective_divide_saturates_far_outside_any_screen() {
    // dividing by one fixed-point unit would overflow; it clips instead
    assert_eq!(fx_div_clip(GEOM_MAX, 1), FX_CLIP);
    assert_eq!(fx_div_clip(-GEOM_MAX, 1), -FX_CLIP);
    assert_eq!(fx_div_clip(10 * FX, 2 * FX), 5 * FX);
}

#[test]
fn fixed_point_multiplication_truncates_toward_zero() {
    // 0.5 * 0.5 = 0.25 exactly
    assert_eq!(fx_mul(FX / 2, FX / 2), FX / 4);
    // (1/65536) * (1/65536) truncates to zero
    assert_eq!(fx_mul(1, 1), 0);
    assert_eq!(fx_mul(-1, 1), 0);
}

#[test]
fn isqrt_matches_perfect_and_imperfect_squares() {
    assert_eq!(isqrt(0), 0);
    assert_eq!(isqrt(1), 1);
    assert_eq!(isqrt(2), 1);
    assert_eq!(isqrt(3), 1);
    assert_eq!(isqrt(4), 2);
    assert_eq!(isqrt(99), 9);
    assert_eq!(isqrt(100), 10);
    assert_eq!(isqrt(u64::MAX as u128 * u64::MAX as u128), u64::MAX);
}

#[test]
fn vector_length_is_exact_for_pythagorean_triples() {
    let v = Vec3::new(3 * FX, 4 * FX, 0);
    assert_eq!(v.len(), 5 * FX);
    let w = Vec2::new(3 * FX, 4 * FX);
    assert_eq!(w.len(), 5 * FX);
}

#[test]
fn normalize_gives_unit_length_and_keeps_zero_vector() {
    let v = Vec3::new(3 * FX, 4 * FX, 0).normalize();
    assert_eq!(v, Vec3::new((3 * FX) / 5, (4 * FX) / 5, 0));
    let z = Vec3::new(0, 0, 0).normalize();
    assert_eq!(z, Vec3::new(0, 0, 0));
}

#[test]
fn cross_product_follows_the_right_hand_rule() {
    let x = Vec3::new(FX, 0, 0);
    let y = Vec3::new(0, FX, 0);
    assert_eq!(x.cross(y), Vec3::new(0, 0, FX));
    assert_eq!(y.cross(x), Vec3::new(0, 0, -FX));
}

#[test]
fn dot_product_and_componentwise_ops() {
    let a = Vec3::new(FX, 2 * FX, 3 * FX);
    let b = Vec3::new(4 * FX, -5 * FX, 6 * FX);
    assert_eq!(a.dot(b), (4 - 10 + 18) * FX);
    assert_eq!(a.add(b), Vec3::new(5 * FX, -3 * FX, 9 * FX));
    assert_eq!(a.sub(b), Vec3::new(-3 * FX, 7 * FX, -3 * FX));
    assert_eq!(a.mul(2 * FX), Vec3::new(2 * FX, 4 * FX, 6 * FX));
    assert_eq!(a.div(2 * FX), Vec3::new(FX / 2, FX, FX + FX / 2));
    let p = Vec2::new(3 * FX, -4 * FX);
    let q = Vec2::new(2 * FX, FX);
    assert_eq!(p.dot(q), 2 * FX);
    assert_eq!(p.add(q), Vec2::new(5 * FX, -3 * FX));
    assert_eq!(p.sub(q), Vec2::new(FX, -5 * FX));
    assert_eq!(p.mul(FX / 2), Vec2::new(FX + FX / 2, -2 * FX));
    assert_eq!(p.div(2 * FX), Vec2::new(FX + FX / 2, -2 * FX));
}

#[test]
fn rotations_preserve_length_within_tolerance() {
    // rotations are isometries; the fixed-point rounding loses at most a
    // few units per component
    let v = Vec3::new(fx_of(3.25), fx_of(-1.5), fx_of(2.0));
    let before = to_f(v.len());
    for k in 0..16 {
        let a = k as f64 * 0.41;
        let (c, s) = (fx_of(a.cos()), fx_of(a.sin()));
        for r in [v.rotate_x(c, s), v.rotate_y(c, s), v.rotate_z(c, s)] {
            let after = to_f(r.len());
            assert!(
                (after - before).abs() < 0.001,
                "length drifted: {} vs {}",
                after,
                before
            );
        }
    }
}

#[test]
fn quarter_turn_rotations_are_exact() {
    let v = Vec3::new(FX, 2 * FX, 3 * FX);
    // cos 0, sin 1
    assert_eq!(v.rotate_x(0, FX), Vec3::new(FX, -3 * FX, 2 * FX));
    assert_eq!(v.rotate_y(0, FX), Vec3::new(3 * FX, 2 * FX, -FX));
    assert_eq!(v.rotate_z(0, FX), Vec3::new(-2 * FX, FX, 3 * FX));
}

#[test]
fn matrix_constructors_hold_their_layout() {
    let id = Matrix::identity();
    for i in 0..4 {
        for j in 0..4 {
            assert_eq!(id.data[i][j], if i == j { FX } else { 0 });
        }
    }
    let z = Matrix::new();
    assert!(z.data.iter().all(|row| row.iter().all(|&e| e == 0)));
    let s = Matrix::new().scale(2 * FX, 3 * FX, 4 * FX);
    assert_eq!((s.data[0][0], s.data[1][1], s.data[2][2], s.data[3][3]), (2 * FX, 3 * FX, 4 * FX, FX));
    let t = Matrix::new().translate(5 * FX, 6 * FX, 7 * FX);
    assert_eq!((t.data[3][0], t.data[3][1], t.data[3][2]), (5 * FX, 6 * FX, 7 * FX));
    let p = Matrix::make_perspetive(FX, FX, FX, 2 * FX);
    assert_eq!(p.data[0][0], FX);
    assert_eq!(p.data[1][1], FX);
    assert_eq!(p.data[2][2], 2 * FX);
    assert_eq!(p.data[2][3], -2 * FX);
    assert_eq!(p.data[3][2], FX);
}

#[test]
fn matrix_multiply_applies_row_vector_convention() {
    let mut t = Matrix::new().translate(10 * FX, 20 * FX, 30 * FX);
    let mut v = Vec4::new(FX, 2 * FX, 3 * FX, FX);
    let r = t.multiply(&mut v);
    assert_eq!(r, Vec4::new(11 * FX, 22 * FX, 33 * FX, FX));
    // the multiply also stores its result through the reference
    assert_eq!(v, r);
    let mut rz = Matrix::new().rotate_z(0, FX);
    let mut u = Vec4::new(FX, 0, 0, FX);
    let r2 = rz.multiply(&mut u);
    assert_eq!(r2, Vec4::new(0, FX, 0, FX));
}

#[test]
fn matrix_transform_applies_affine_part() {
    let t = Matrix::new().translate(10 * FX, 20 * FX, 30 * FX);
    let r = t.transform(&Vec3::new(FX, 2 * FX, 3 * FX));
    assert_eq!(r, Vec3::new(11 * FX, 22 * FX, 33 * FX));
}
