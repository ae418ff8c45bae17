//! 16.16 fixed-point scalars: an `i64` holds the real value times 65536.
//!
//! Every executable operation is specified exactly over `int`, using
//! truncating (toward-zero) division, which is what machine division does.

use vstd::arithmetic::div_mod::{
    lemma_div_is_ordered, lemma_div_nonincreasing, lemma_div_pos_is_pos,
};
use vstd::prelude::*;

verus! {

broadcast use vstd::arithmetic::div_mod::lemma_div_pos_is_pos;

/// The fixed-point representation of 1.
pub const FX_ONE: i64 = 65536;

/// Saturation bound for the perspective divide: values beyond this are so
/// far outside any screen that clamping them changes nothing visible, and
/// it keeps later screen-mapping arithmetic inside `i64`.
pub const FX_CLIP: i64 = 0x100_0000_0000;

/// Truncating (toward-zero) division, the rounding of machine division.
/// (`/` on `int` is Euclidean division, so this reduces every case to a
/// division of a non-negative value by a positive one, where the two agree.)
pub open spec fn tdiv(p: int, q: int) -> int
    recommends
        q != 0,
{
    if q > 0 {
        if p >= 0 {
            p / q
        } else {
            -((-p) / q)
        }
    } else {
        if p >= 0 {
            -(p / (-q))
        } else {
            (-p) / (-q)
        }
    }
}

/// The exact value of a fixed-point product.
pub open spec fn fxmul(a: int, b: int) -> int {
    tdiv(a * b, 65536)
}

/// The exact value of a fixed-point quotient.
pub open spec fn fxdiv(a: int, b: int) -> int
    recommends
        b != 0,
{
    tdiv(a * 65536, b)
}

/// The exact value of the saturating fixed-point quotient used by the
/// perspective divide.
pub open spec fn fxdiv_clip(a: int, b: int) -> int
    recommends
        b != 0,
{
    let q = fxdiv(a, b);
    if q > 0x100_0000_0000 {
        0x100_0000_0000
    } else if q < -0x100_0000_0000 {
        -0x100_0000_0000
    } else {
        q
    }
}

pub open spec fn fxabs(a: int) -> int {
    if a >= 0 {
        a
    } else {
        -a
    }
}

/// Truncating division shrinks magnitudes: `|tdiv(p, q)| <= |p|`,
/// and more precisely `|tdiv(p, q)| <= m / |q|` whenever `|p| <= m`.
pub proof fn lemma_tdiv_bound(p: int, q: int, m: int)
    requires
        q != 0,
        fxabs(p) <= m,
    ensures
        fxabs(tdiv(p, q)) <= m / fxabs(q),
        fxabs(tdiv(p, q)) <= m,
{
    let pa = fxabs(p);
    let qa = fxabs(q);
    lemma_div_pos_is_pos(pa, qa);
    lemma_div_is_ordered(pa, m, qa);
    lemma_div_nonincreasing(m, qa);
}

/// A bound on the product feeding a fixed-point multiply:
/// `|a| <= m` and `|b| <= n` give `|a * b| <= m * n`.
pub proof fn lemma_mul_abs_bound(a: int, b: int, m: int, n: int)
    by (nonlinear_arith)
    requires
        fxabs(a) <= m,
        fxabs(b) <= n,
    ensures
        fxabs(a * b) <= m * n,
{
}

/// `|fxmul(a, b)| <= (m * n) / 65536` whenever `|a| <= m` and `|b| <= n`.
pub proof fn lemma_fxmul_bound(a: int, b: int, m: int, n: int)
    requires
        fxabs(a) <= m,
        fxabs(b) <= n,
    ensures
        fxabs(fxmul(a, b)) <= (m * n) / 65536,
        fxabs(fxmul(a, b)) <= m * n,
{
    lemma_mul_abs_bound(a, b, m, n);
    lemma_tdiv_bound(a * b, 65536, m * n);
}

/// Zero annihilates a fixed-point product.
pub proof fn lemma_fxmul_zero(a: int)
    ensures
        fxmul(a, 0) == 0,
        fxmul(0, a) == 0,
{
    vstd::arithmetic::div_mod::lemma_div_of0(65536);
}

/// One is the fixed-point multiplicative identity.
pub proof fn lemma_fxmul_one(a: int)
    ensures
        fxmul(a, 65536) == a,
{
    if a >= 0 {
        vstd::arithmetic::div_mod::lemma_div_by_multiple(a, 65536);
    } else {
        assert(-(a * 65536) == (-a) * 65536);
        vstd::arithmetic::div_mod::lemma_div_by_multiple(-a, 65536);
    }
}

/// `|fxdiv(a, b)| <= m * 65536` whenever `|a| <= m`: dividing by a nonzero
/// integer inflates a magnitude by at most the scale factor.
pub proof fn lemma_fxdiv_bound(a: int, b: int, m: int)
    requires
        b != 0,
        fxabs(a) <= m,
    ensures
        fxabs(fxdiv(a, b)) <= m * 65536,
{
    lemma_tdiv_bound(a * 65536, b, m * 65536);
}

/// Dividing a component by a length that dominates it yields at most one:
/// `|fxdiv(x, l)| <= 65536` whenever `|x| <= l`.
pub proof fn lemma_fxdiv_unit_bound(x: int, l: int)
    requires
        0 < l,
        fxabs(x) <= l,
    ensures
        fxabs(fxdiv(x, l)) <= 65536,
{
    lemma_tdiv_bound(x * 65536, l, l * 65536);
    vstd::arithmetic::div_mod::lemma_div_multiples_vanish(65536, l);
}

/// Fixed-point multiplication; exact by construction.
pub fn fx_mul(a: i64, b: i64) -> (r: i64)
    requires
        i64::MIN <= fxmul(a as int, b as int) <= i64::MAX,
    ensures
        r == fxmul(a as int, b as int),
{
    let p: i128 = (a as i128) * (b as i128);
    let q: i128 = p / 65536;
    proof {
        lemma_tdiv_bound(p as int, 65536, fxabs(p as int));
    }
    q as i64
}

/// The magnitude of the truncated quotient, computed over non-negative
/// values so that machine and Euclidean division coincide.
fn tdiv_mag(a: i64, b: i64) -> (q: i128)
    requires
        b != 0,
    ensures
        q == fxabs(tdiv(a as int * 65536, b as int)),
        q >= 0,
    // the quotient's magnitude never exceeds the scaled dividend's
        q <= fxabs(a as int * 65536),
{
    let aa: i128 = if a < 0 {
        -(a as i128)
    } else {
        a as i128
    };
    let bb: i128 = if b < 0 {
        -(b as i128)
    } else {
        b as i128
    };
    let p: i128 = aa * 65536;
    let q: i128 = p / bb;
    proof {
        lemma_tdiv_bound(p as int, bb as int, p as int);
    }
    q
}

/// Fixed-point division; exact by construction.
pub fn fx_div(a: i64, b: i64) -> (r: i64)
    requires
        b != 0,
        i64::MIN <= fxdiv(a as int, b as int) <= i64::MAX,
    ensures
        r == fxdiv(a as int, b as int),
{
    let q: i128 = tdiv_mag(a, b);
    if (a < 0) != (b < 0) {
        (-q) as i64
    } else {
        q as i64
    }
}

/// Fixed-point division saturating at `FX_CLIP`; needs no bound on its
/// inputs, which makes it safe for the perspective divide.
pub fn fx_div_clip(a: i64, b: i64) -> (r: i64)
    requires
        b != 0,
    ensures
        r == fxdiv_clip(a as int, b as int),
{
    let q: i128 = tdiv_mag(a, b);
    if (a < 0) != (b < 0) {
        if q > 0x100_0000_0000 {
            -0x100_0000_0000
        } else {
            (-q) as i64
        }
    } else {
        if q > 0x100_0000_0000 {
            0x100_0000_0000
        } else {
            q as i64
        }
    }
}

/// The whole part of a fixed-point value as a screen coordinate: rounded
/// toward zero and saturated to the `i32` range.
pub open spec fn fx_screen(a: int) -> int {
    let t = tdiv(a, 65536);
    if t > 0x7fff_ffff {
        0x7fff_ffff
    } else if t < -0x8000_0000 {
        -0x8000_0000
    } else {
        t
    }
}

/// Truncating division by the scale keeps order, and so does the clamp:
/// sorting fixed-point values sorts their screen coordinates.
pub proof fn lemma_fx_screen_mono(a: int, b: int)
    requires
        a <= b,
    ensures
        fx_screen(a) <= fx_screen(b),
{
    if a >= 0 {
        lemma_div_is_ordered(a, b, 65536);
    } else if b >= 0 {
        lemma_div_pos_is_pos(a * -1, 65536);
        lemma_div_pos_is_pos(b, 65536);
        assert(-a == a * -1);
    } else {
        lemma_div_is_ordered(-b, -a, 65536);
    }
}

/// Converts a fixed-point value to a whole screen coordinate.
pub fn fx_to_i32(a: i64) -> (r: i32)
    ensures
        r == fx_screen(a as int),
{
    proof {
        lemma_tdiv_bound(a as int, 65536, fxabs(a as int));
    }
    let t: i64 = a / 65536;
    if t > 0x7fff_ffff {
        0x7fff_ffffi32
    } else if t < -0x8000_0000 {
        -0x8000_0000i32
    } else {
        t as i32
    }
}

/// The whole part of a fixed-point value, rounded toward zero.
pub fn fx_trunc(a: i64) -> (r: i64)
    ensures
        r == tdiv(a as int, 65536),
{
    proof {
        lemma_tdiv_bound(a as int, 65536, fxabs(a as int));
    }
    a / 65536
}

/// Lifts a small integer to fixed point.
pub fn fx_from_int(a: i32) -> (r: i64)
    ensures
        r == a * 65536,
{
    (a as i64) * 65536
}

/// The floor of the square root, defined by counting up; used to specify
/// vector length.
pub open spec fn sqrt_floor(n: nat) -> nat
    decreases n,
{
    if n == 0 {
        0
    } else {
        let r = sqrt_floor((n - 1) as nat);
        if (r + 1) * (r + 1) <= n {
            r + 1
        } else {
            r
        }
    }
}

/// `sqrt_floor(n)` is the unique `r` with `r * r <= n < (r + 1) * (r + 1)`.
pub proof fn lemma_sqrt_floor_bounds(n: nat)
    ensures
        sqrt_floor(n) * sqrt_floor(n) <= n,
        n < (sqrt_floor(n) + 1) * (sqrt_floor(n) + 1),
    decreases n,
{
    if n > 0 {
        lemma_sqrt_floor_bounds((n - 1) as nat);
        let r = sqrt_floor((n - 1) as nat);
        if (r + 1) * (r + 1) <= n {
            assert(sqrt_floor(n) == r + 1);
            assert(n < ((r + 1) + 1) * ((r + 1) + 1)) by (nonlinear_arith)
                requires
                    n <= (r + 1) * (r + 1),
            ;
        } else {
            assert(sqrt_floor(n) == r);
        }
    } else {
        assert(sqrt_floor(n) == 0);
        assert((sqrt_floor(n) + 1) * (sqrt_floor(n) + 1) == 1) by (nonlinear_arith)
            requires
                sqrt_floor(n) == 0,
        ;
    }
}

pub proof fn lemma_sqrt_floor_unique(n: nat, r: nat)
    requires
        r * r <= n,
        n < (r + 1) * (r + 1),
    ensures
        r == sqrt_floor(n),
{
    lemma_sqrt_floor_bounds(n);
    let s = sqrt_floor(n);
    assert(r == s) by (nonlinear_arith)
        requires
            r * r <= n,
            n < (r + 1) * (r + 1),
            s * s <= n,
            n < (s + 1) * (s + 1),
    ;
}

/// Integer square root by bisection.
pub fn isqrt(n: u128) -> (r: u64)
    ensures
        r as nat == sqrt_floor(n as nat),
{
    let mut lo: u128 = 0;
    let mut hi: u128 = 0x1_0000_0000_0000_0000;
    proof {
        assert((hi as nat) * (hi as nat) > n as nat) by (nonlinear_arith)
            requires
                hi == 0x1_0000_0000_0000_0000,
                n <= u128::MAX,
        ;
    }
    while lo + 1 < hi
        invariant
            lo < hi <= 0x1_0000_0000_0000_0000,
            (lo as nat) * (lo as nat) <= n as nat,
            (n as nat) < (hi as nat) * (hi as nat),
        decreases hi - lo,
    {
        let mid: u128 = lo + (hi - lo) / 2;
        proof {
            assert(mid * mid <= u128::MAX) by (nonlinear_arith)
                requires
                    mid < 0x1_0000_0000_0000_0000,
            ;
        }
        if mid * mid <= n {
            lo = mid;
        } else {
            hi = mid;
        }
    }
    proof {
        lemma_sqrt_floor_unique(n as nat, lo as nat);
    }
    lo as u64
}

} // verus!
