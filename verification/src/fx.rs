//! Fixed-point scalars and 2D vectors for the kinematic pipeline.
//!
//! A scalar is an `i64` carrying three fractional decimal digits: the value
//! `1.5` is stored as `1500`. Products and quotients are truncated toward
//! zero, as the corresponding machine operations are; every operation states
//! its exact integer result.

use vstd::prelude::*;

verus! {

/// One whole unit: scalars carry three fractional decimal digits.
pub const FX_ONE: i64 = 1000;

/// The magnitude: `a` with its sign dropped.
pub open spec fn s_abs(a: int) -> int {
    if a >= 0 {
        a
    } else {
        -a
    }
}

/// Truncating division: the quotient of `a` by `b`, rounded toward zero.
pub open spec fn s_tdiv(a: int, b: int) -> int {
    if a >= 0 {
        a / b
    } else {
        -((-a) / b)
    }
}

/// The fixed-point product: the wide product of `a` and `b`, scaled back
/// down by one unit and truncated toward zero.
pub open spec fn s_mulfx(a: int, b: int) -> int {
    s_tdiv(a * b, 1000)
}

/// Halving, truncated toward zero.
pub open spec fn s_half(a: int) -> int {
    s_tdiv(a, 2)
}

/// `r` is the integer square root of `n`: the greatest integer whose square
/// does not exceed `n`.
pub open spec fn is_isqrt(n: int, r: int) -> bool {
    0 <= r && r * r <= n && n < (r + 1) * (r + 1)
}

/// The integer square root of a non-negative `n`.
pub open spec fn s_isqrt(n: int) -> int {
    choose|r: int| is_isqrt(n, r)
}

/// The magnitude of a product is the product of the magnitudes.
pub proof fn lemma_abs_mul(a: int, b: int)
    by (nonlinear_arith)
    ensures
        s_abs(a * b) == s_abs(a) * s_abs(b),
{
}

/// The sign of a product follows the signs of its factors.
pub proof fn lemma_mul_sign(a: int, b: int)
    by (nonlinear_arith)
    ensures
        ((a < 0) != (b < 0)) ==> a * b <= 0,
        ((a < 0) == (b < 0)) ==> a * b >= 0,
        a == 0 || b == 0 ==> a * b == 0,
{
}

/// The product of two bounded magnitudes stays within the product of the
/// bounds.
pub proof fn lemma_mag_product_bound(a: int, b: int, ba: int, bb: int)
    by (nonlinear_arith)
    requires
        0 <= a <= ba,
        0 <= b <= bb,
    ensures
        a * b <= ba * bb,
{
}

/// A square is never negative.
pub proof fn lemma_square_nonneg(a: int)
    by (nonlinear_arith)
    ensures
        a * a >= 0,
        s_abs(a) * s_abs(a) == a * a,
{
}

/// Squaring keeps order on non-negative values.
pub proof fn lemma_square_le(a: int, b: int)
    by (nonlinear_arith)
    requires
        0 <= a <= b,
    ensures
        a * a <= b * b,
{
}

/// A non-negative value whose square stays within `bound * bound` stays
/// within `bound`.
pub proof fn lemma_sqrt_bound(r: int, n: int, bound: int)
    by (nonlinear_arith)
    requires
        0 <= r,
        0 <= bound,
        r * r <= n,
        n <= bound * bound,
    ensures
        r <= bound,
{
}

/// Integer square roots are unique.
pub proof fn lemma_isqrt_unique(n: int, r1: int, r2: int)
    by (nonlinear_arith)
    requires
        is_isqrt(n, r1),
        is_isqrt(n, r2),
    ensures
        r1 == r2,
{
}

/// Truncating division by a positive divisor shrinks the magnitude, divides
/// it exactly, and keeps the sign.
pub proof fn lemma_tdiv_props(p: int, d: int)
    by (nonlinear_arith)
    requires
        d >= 1,
    ensures
        s_abs(s_tdiv(p, d)) == s_abs(p) / d,
        s_abs(p) / d <= s_abs(p),
        p >= 0 ==> s_tdiv(p, d) >= 0,
        p <= 0 ==> s_tdiv(p, d) <= 0,
{
}

/// A fixed-point product of bounded factors stays within the scaled-down
/// product of the bounds.
pub proof fn lemma_mulfx_bound(a: int, b: int, ba: int, bb: int)
    requires
        s_abs(a) <= ba,
        s_abs(b) <= bb,
        0 <= ba,
        0 <= bb,
    ensures
        s_abs(s_mulfx(a, b)) <= ba * bb / 1000,
        a >= 0 && b >= 0 ==> s_mulfx(a, b) >= 0,
{
    lemma_abs_mul(a, b);
    lemma_mul_sign(a, b);
    lemma_mag_product_bound(s_abs(a), s_abs(b), ba, bb);
    lemma_tdiv_props(a * b, 1000);
    vstd::arithmetic::div_mod::lemma_div_is_ordered(s_abs(a * b), ba * bb, 1000);
}

/// Every non-negative integer has an integer square root.
proof fn lemma_isqrt_exists(n: int)
    requires
        n >= 0,
    ensures
        exists|r: int| #[trigger] is_isqrt(n, r),
    decreases n,
{
    if n == 0 {
        assert(is_isqrt(0, 0));
    } else {
        lemma_isqrt_exists(n - 1);
        let r = choose|r: int| #[trigger] is_isqrt(n - 1, r);
        if (r + 1) * (r + 1) <= n {
            assert(is_isqrt(n, r + 1)) by (nonlinear_arith)
                requires
                    is_isqrt(n - 1, r),
                    (r + 1) * (r + 1) <= n,
            ;
        } else {
            assert(is_isqrt(n, r));
        }
    }
}

/// The integer square root named by `s_isqrt` is one: it exists and obeys
/// its defining bounds.
pub proof fn lemma_isqrt(n: int)
    requires
        n >= 0,
    ensures
        is_isqrt(n, s_isqrt(n)),
    decreases n,
{
    lemma_isqrt_exists(n);
}

/// Integer square roots keep order.
pub proof fn lemma_isqrt_monotone(m: int, n: int)
    requires
        0 <= m <= n,
    ensures
        s_isqrt(m) <= s_isqrt(n),
{
    lemma_isqrt(m);
    lemma_isqrt(n);
    assert(s_isqrt(m) <= s_isqrt(n)) by (nonlinear_arith)
        requires
            is_isqrt(m, s_isqrt(m)),
            is_isqrt(n, s_isqrt(n)),
            m <= n,
    ;
}

/// The magnitude of `a`, widened so that the smallest `i64` needs no care.
fn abs_mag(a: i64) -> (r: u64)
    ensures
        r as int == s_abs(a as int),
{
    if a >= 0 {
        a as u64
    } else {
        (-(a as i128)) as u64
    }
}

/// Truncating division of a scalar by a positive divisor.
pub fn tdiv(a: i64, b: i64) -> (r: i64)
    requires
        b >= 1,
        -0x7fff_ffff_ffff_ffff <= a as int,
    ensures
        r as int == s_tdiv(a as int, b as int),
        s_abs(r as int) <= s_abs(a as int),
{
    let mag: u64 = abs_mag(a);
    let q: u64 = mag / (b as u64);
    if a < 0 {
        -(q as i64)
    } else {
        q as i64
    }
}

/// The fixed-point product of two scalars, exact up to the stated
/// truncation.
pub fn mulfx(a: i64, b: i64) -> (r: i64)
    requires
        -0x7fff_ffff_ffff_ffff <= s_mulfx(a as int, b as int) <= 0x7fff_ffff_ffff_ffff,
    ensures
        r as int == s_mulfx(a as int, b as int),
{
    let neg: bool = (a < 0) != (b < 0);
    let ma: u128 = abs_mag(a) as u128;
    let mb: u128 = abs_mag(b) as u128;
    proof {
        lemma_mag_product_bound(
            ma as int,
            mb as int,
            0x8000_0000_0000_0000,
            0x8000_0000_0000_0000,
        );
    }
    let q: u128 = (ma * mb) / 1000;
    proof {
        lemma_abs_mul(a as int, b as int);
        lemma_mul_sign(a as int, b as int);
        assert(ma * mb == s_abs((a as int) * (b as int)));
        assert(q == s_abs((a as int) * (b as int)) / 1000);
        assert(q == s_abs(s_mulfx(a as int, b as int)));
    }
    if neg {
        -(q as i64)
    } else {
        q as i64
    }
}

/// Half a scalar, truncated toward zero.
pub fn halffx(a: i64) -> (r: i64)
    ensures
        r as int == s_half(a as int),
        s_abs(r as int) <= s_abs(a as int),
{
    let mag: u64 = abs_mag(a);
    let q: u64 = mag / 2;
    if a < 0 {
        -(q as i64)
    } else {
        q as i64
    }
}

/// The integer square root, by bisection.
pub fn isqrt(n: u128) -> (r: u64)
    ensures
        is_isqrt(n as int, r as int),
        r as int == s_isqrt(n as int),
{
    let mut lo: u128 = 0;
    let mut hi: u128 = 0x1_0000_0000_0000_0000;
    proof {
        assert(n < hi * hi) by (nonlinear_arith)
            requires
                hi == 0x1_0000_0000_0000_0000u128,
                n <= 0xffff_ffff_ffff_ffff_ffff_ffff_ffff_ffffu128,
        ;
    }
    while lo + 1 < hi
        invariant
            lo < hi,
            hi <= 0x1_0000_0000_0000_0000,
            lo * lo <= n,
            n < hi * hi,
        decreases hi - lo,
    {
        let mid: u128 = lo + (hi - lo) / 2;
        proof {
            assert(mid * mid <= 0xffff_ffff_ffff_ffff * 0xffff_ffff_ffff_ffffu128) by (
            nonlinear_arith)
                requires
                    mid <= 0xffff_ffff_ffff_ffffu128,
            ;
        }
        let sq: u128 = mid * mid;
        if sq <= n {
            lo = mid;
        } else {
            hi = mid;
        }
    }
    proof {
        assert(is_isqrt(n as int, lo as int));
        lemma_isqrt(n as int);
        lemma_isqrt_unique(n as int, lo as int, s_isqrt(n as int));
    }
    lo as u64
}

/// A 2D fixed-point vector.
#[derive(Debug, Clone, Copy, PartialEq, Eq, Structural)]
pub struct Vec2Fx {
    pub x: i64,
    pub y: i64,
}

/// The squared length of `v` in raw (unscaled) units.
pub open spec fn s_sq_len(v: Vec2Fx) -> int {
    v.x * v.x + v.y * v.y
}

/// The length of `v`, truncated to an integer of the same scale as its
/// components.
pub open spec fn s_len(v: Vec2Fx) -> int {
    s_isqrt(s_sq_len(v))
}

/// The direction of `v` scaled to one fixed-point unit, componentwise; the
/// zero vector yields the zero vector.
pub open spec fn s_unit_x(v: Vec2Fx) -> int {
    if v.x == 0 && v.y == 0 {
        0
    } else {
        s_tdiv(v.x * 1000, s_len(v))
    }
}

/// See `s_unit_x`.
pub open spec fn s_unit_y(v: Vec2Fx) -> int {
    if v.x == 0 && v.y == 0 {
        0
    } else {
        s_tdiv(v.y * 1000, s_len(v))
    }
}

impl Vec2Fx {
    /// The zero vector.
    pub fn zero() -> (r: Vec2Fx)
        ensures
            r.x == 0,
            r.y == 0,
    {
        Vec2Fx { x: 0, y: 0 }
    }

    /// The vector with the given components.
    pub fn new(x: i64, y: i64) -> (r: Vec2Fx)
        ensures
            r.x == x,
            r.y == y,
    {
        Vec2Fx { x, y }
    }
}

/// The length of `v` never lies below the magnitude of either component.
pub proof fn lemma_len_bounds(v: Vec2Fx)
    ensures
        s_len(v) >= 0,
        s_len(v) >= s_abs(v.x as int),
        s_len(v) >= s_abs(v.y as int),
{
    lemma_square_nonneg(v.x as int);
    lemma_square_nonneg(v.y as int);
    lemma_isqrt(s_sq_len(v));
    let l = s_len(v);
    assert(l >= s_abs(v.x as int) && l >= s_abs(v.y as int)) by (nonlinear_arith)
        requires
            is_isqrt(s_sq_len(v), l),
            s_sq_len(v) == v.x * v.x + v.y * v.y,
    ;
}

/// The length of `v`, exactly the integer square root of the squared
/// component sum.
pub fn length(v: Vec2Fx) -> (r: i64)
    requires
        s_abs(v.x as int) <= 3_000_000_000_000_000_000,
        s_abs(v.y as int) <= 3_000_000_000_000_000_000,
    ensures
        r as int == s_len(v),
        0 <= r,
        s_abs(v.x as int) <= r as int,
        s_abs(v.y as int) <= r as int,
        r <= 4_300_000_000_000_000_000,
{
    let mx: u128 = abs_mag(v.x) as u128;
    let my: u128 = abs_mag(v.y) as u128;
    proof {
        lemma_square_nonneg(v.x as int);
        lemma_square_nonneg(v.y as int);
        assert(mx * mx == v.x * v.x && my * my == v.y * v.y && mx * mx
            <= 3_000_000_000_000_000_000 * 3_000_000_000_000_000_000 && my * my
            <= 3_000_000_000_000_000_000 * 3_000_000_000_000_000_000) by (nonlinear_arith)
            requires
                mx == s_abs(v.x as int),
                my == s_abs(v.y as int),
                mx <= 3_000_000_000_000_000_000,
                my <= 3_000_000_000_000_000_000,
        ;
    }
    let sq: u128 = mx * mx + my * my;
    let r: u64 = isqrt(sq);
    proof {
        lemma_len_bounds(v);
        lemma_sqrt_bound(
            r as int,
            sq as int,
            4_300_000_000_000_000_000,
        );
        lemma_isqrt_unique(sq as int, r as int, s_isqrt(sq as int));
    }
    r as i64
}

/// The direction of `v` scaled to one fixed-point unit; the zero vector
/// stays zero. Each resulting component stays within one unit and keeps the
/// sign of the component it came from.
pub fn normalize_or_zero(v: Vec2Fx) -> (r: Vec2Fx)
    requires
        s_abs(v.x as int) <= 2_000_000_000_000_000,
        s_abs(v.y as int) <= 2_000_000_000_000_000,
    ensures
        r.x as int == s_unit_x(v),
        r.y as int == s_unit_y(v),
        s_abs(r.x as int) <= 1000,
        s_abs(r.y as int) <= 1000,
{
    if v.x == 0 && v.y == 0 {
        Vec2Fx { x: 0, y: 0 }
    } else {
        let len: i64 = length(v);
        proof {
            lemma_square_nonneg(v.x as int);
            lemma_square_nonneg(v.y as int);
            lemma_isqrt(s_sq_len(v));
            if len == 0 {
                assert(s_sq_len(v) < 1);
                lemma_square_nonneg(v.x as int);
                lemma_square_nonneg(v.y as int);
                assert(v.x * v.x == 0 && v.y * v.y == 0);
                assert(v.x as int == 0 && v.y as int == 0) by (nonlinear_arith)
                    requires
                        v.x * v.x == 0 && v.y * v.y == 0,
                ;
                assert(false);
            }
        }
        let ux: i64 = tdiv(v.x * 1000, len);
        let uy: i64 = tdiv(v.y * 1000, len);
        proof {
            lemma_unit_component(v.x as int, len as int);
            lemma_unit_component(v.y as int, len as int);
        }
        Vec2Fx { x: ux, y: uy }
    }
}

/// The components of a normalized vector stay within one unit.
pub proof fn lemma_unit_bounds(v: Vec2Fx)
    ensures
        s_abs(s_unit_x(v)) <= 1000,
        s_abs(s_unit_y(v)) <= 1000,
        s_len(v) >= 1 ==> s_unit_x(v) == s_tdiv(v.x * 1000, s_len(v)) && s_unit_y(v) == s_tdiv(
            v.y * 1000,
            s_len(v),
        ),
{
    if v.x == 0 && v.y == 0 {
    } else {
        lemma_len_bounds(v);
        lemma_square_nonneg(v.x as int);
        lemma_square_nonneg(v.y as int);
        lemma_isqrt(s_sq_len(v));
        if s_len(v) == 0 {
            assert(s_sq_len(v) < 1);
            assert(v.x as int == 0 && v.y as int == 0) by (nonlinear_arith)
                requires
                    v.x * v.x >= 0,
                    v.y * v.y >= 0,
                    v.x * v.x + v.y * v.y < 1,
                    s_abs(v.x as int) * s_abs(v.x as int) == v.x * v.x,
                    s_abs(v.y as int) * s_abs(v.y as int) == v.y * v.y,
            ;
            assert(false);
        }
        lemma_unit_component(v.x as int, s_len(v));
        lemma_unit_component(v.y as int, s_len(v));
    }
}

/// A component no longer than the length, scaled to one unit and divided by
/// the length, stays within one unit.
proof fn lemma_unit_component(c: int, len: int)
    by (nonlinear_arith)
    requires
        len >= 1,
        s_abs(c) <= len,
    ensures
        s_abs(s_tdiv(c * 1000, len)) <= 1000,
{
}

} // verus!
