//! Fixed-point scalars.
//!
//! Every scalar quantity in the engine (coordinates, ray parameters, colors,
//! trigonometric values) is an `i64` counting 1/1024 units. This module
//! holds the scale constant, the truncated-division spec the whole crate
//! states its quotients with, and the shared low-level arithmetic helpers.

use vstd::prelude::*;
use vstd::arithmetic::div_mod::{lemma_div_is_ordered, lemma_div_nonincreasing, lemma_div_pos_is_pos};

verus! {

/// One whole unit of the fixed-point scale: a scalar `s` stands for the
/// real number `s / 1024`.
pub const FX_ONE: i64 = 1024;

/// Magnitude bound on every stored scene scalar (coordinates, radii,
/// offsets, direction components, times): 2^21, i.e. 2048 world units.
/// Keeping scene input under this bound lets every intermediate product in
/// the engine fit comfortably in an `i128`.
pub const COORD_MAX: i64 = 0x200000;

/// The ray-parameter horizon: the stand-in for an unbounded search window.
/// 2^40 in fixed point, far beyond any parameter at which bounded geometry
/// can be met.
pub const T_MAX: i64 = 0x10000000000;

/// Magnitude bound on a bounding-box corner component: 2^26. Boxes of
/// nested transforms are clamped to this universe; a clamped box may stop
/// being conservative only for geometry that already left the supported
/// universe.
pub const BOX_LIM: i64 = 0x4000000;

/// Magnitude bound on a ray direction component: 2^22.
pub const DIR_MAX: i64 = 0x400000;

/// Magnitude bound on a ray origin component: 2^30.
pub const ORIGIN_MAX: i64 = 0x40000000;

/// The supported coordinate universe for hit points: a reported hit always
/// lies within 2^29 per component, which keeps every hit point usable as
/// the origin of a scattered ray.
pub const P_MAX: i64 = 0x20000000;

pub open spec fn imax(a: int, b: int) -> int {
    if a >= b {
        a
    } else {
        b
    }
}

pub open spec fn imin(a: int, b: int) -> int {
    if a <= b {
        a
    } else {
        b
    }
}

/// Truncated (round-toward-zero) division: the rounding of every
/// fixed-point quotient in this crate. Meaningful for `b > 0`.
pub open spec fn tdiv(a: int, b: int) -> int
    recommends
        b > 0,
{
    if a >= 0 {
        a / b
    } else {
        -((-a) / b)
    }
}

/// Truncated division never grows magnitude and keeps sign.
pub proof fn lemma_tdiv_range(a: int, b: int)
    requires
        b >= 1,
    ensures
        a >= 0 ==> 0 <= tdiv(a, b) <= a,
        a < 0 ==> a <= tdiv(a, b) <= 0,
{
    if a >= 0 {
        lemma_div_pos_is_pos(a, b);
        lemma_div_nonincreasing(a, b);
    } else {
        lemma_div_pos_is_pos(-a, b);
        lemma_div_nonincreasing(-a, b);
    }
}

/// Truncated division is monotone in the dividend.
pub proof fn lemma_tdiv_ordered(a1: int, a2: int, b: int)
    requires
        b >= 1,
        a1 <= a2,
    ensures
        tdiv(a1, b) <= tdiv(a2, b),
{
    if a1 >= 0 {
        lemma_div_is_ordered(a1, a2, b);
    } else if a2 < 0 {
        lemma_div_is_ordered(-a2, -a1, b);
    } else {
        lemma_div_pos_is_pos(-a1, b);
        lemma_div_pos_is_pos(a2, b);
    }
}

/// A truncated quotient of an exact multiple recovers the factor.
pub proof fn lemma_tdiv_exact_multiple(k: int, m: int)
    requires
        m >= 1,
    ensures
        tdiv(k * m, m) == k,
{
    if k >= 0 {
        vstd::arithmetic::div_mod::lemma_div_by_multiple(k, m);
    } else {
        lemma_tdiv_neg((-k) * m, m);
        assert(k * m == -((-k) * m)) by (nonlinear_arith)
        {
        }
        vstd::arithmetic::div_mod::lemma_div_by_multiple(-k, m);
    }
}

/// Negating the dividend negates a truncated quotient.
pub proof fn lemma_tdiv_neg(a: int, b: int)
    requires
        b >= 1,
    ensures
        tdiv(-a, b) == -tdiv(a, b),
{
}

/// Pi in fixed point (3216.99 rounds to 3217).
pub const PI_FX: i64 = 3217;

/// Pi/2 in fixed point.
pub const HALF_PI_FX: i64 = 1608;

/// 2*Pi in fixed point.
pub const TAU_FX: i64 = 6434;

/// The arctangent on [0, 1]: a quadratic approximation
/// `(pi/4) q + 0.273 q (1 - q)`, in fixed point.
pub open spec fn atan_core_s(q: int) -> int
    recommends
        0 <= q <= 1024,
{
    tdiv(804 * q, 1024) + tdiv(280 * q * (1024 - q), 1048576)
}

/// The four-quadrant arctangent of `y/x` in fixed-point radians, by octant
/// reduction to [`atan_core_s`]; zero at the origin.
pub open spec fn atan2_s(y: int, x: int) -> int {
    let ax = if x >= 0 { x } else { -x };
    let ay = if y >= 0 { y } else { -y };
    let base = if ax >= ay {
        if ax == 0 {
            0
        } else {
            atan_core_s(tdiv(ay * 1024, ax))
        }
    } else {
        1608 - atan_core_s(tdiv(ax * 1024, ay))
    };
    let q = if x >= 0 { base } else { 3217 - base };
    if y >= 0 {
        q
    } else {
        -q
    }
}

/// The arcsine of a fixed-point value in [-1, 1], via the arctangent of
/// `y / sqrt(1 - y^2)`.
pub open spec fn asin_s(y: int) -> int
    recommends
        -1024 <= y <= 1024,
{
    atan2_s(y, sqrt_floor(1048576 - y * y))
}

proof fn lemma_atan_core_range(q: int)
    requires
        0 <= q <= 1024,
    ensures
        0 <= atan_core_s(q) <= 880,
{
    assert(0 <= 804 * q <= 804 * 1024) by (nonlinear_arith)
        requires
            0 <= q <= 1024,
    {
    }
    assert(0 <= 280 * q * (1024 - q) <= 280 * 512 * 512) by (nonlinear_arith)
        requires
            0 <= q <= 1024,
    {
    }
    lemma_tdiv_range(804 * q, 1024);
    lemma_tdiv_ordered(804 * q, 804int * 1024, 1024);
    lemma_tdiv_range(280 * q * (1024 - q), 1048576);
    lemma_tdiv_ordered(280 * q * (1024 - q), 280int * 512 * 512, 1048576);
}

pub proof fn lemma_atan2_range(y: int, x: int)
    ensures
        -3217 <= atan2_s(y, x) <= 3217,
        y >= 0 ==> atan2_s(y, x) >= 0,
        y < 0 ==> atan2_s(y, x) <= 0,
        x >= 0 ==> -1608 <= atan2_s(y, x) <= 1608,
{
    let ax = if x >= 0 { x } else { -x };
    let ay = if y >= 0 { y } else { -y };
    if ax >= ay {
        if ax != 0 {
            lemma_tdiv_range(ay * 1024, ax);
            assert(ay * 1024 <= ax * 1024) by (nonlinear_arith)
                requires
                    ay <= ax,
            {
            }
            lemma_tdiv_ordered(ay * 1024, ax * 1024, ax);
            vstd::arithmetic::div_mod::lemma_div_by_multiple(1024, ax);
            lemma_atan_core_range(tdiv(ay * 1024, ax));
        }
    } else {
        lemma_tdiv_range(ax * 1024, ay);
        assert(ax * 1024 <= ay * 1024) by (nonlinear_arith)
            requires
                ax <= ay,
        {
        }
        lemma_tdiv_ordered(ax * 1024, ay * 1024, ay);
        vstd::arithmetic::div_mod::lemma_div_by_multiple(1024, ay);
        lemma_atan_core_range(tdiv(ax * 1024, ay));
    }
}

/// The arctangent approximation on [0, 1024] fixed-point input.
fn atan_core(q: i64) -> (r: i64)
    requires
        0 <= q <= 1024,
    ensures
        r == atan_core_s(q as int),
        0 <= r <= 880,
{
    proof {
        lemma_atan_core_range(q as int);
        lemma_tdiv_range(804 * q as int, 1024);
        assert(0 <= 280 * q * (1024 - q) <= 280 * 512 * 512) by (nonlinear_arith)
            requires
                0 <= q <= 1024,
        {
        }
        lemma_tdiv_range(280 * (q as int) * (1024 - q as int), 1048576);
    }
    let lin = tdiv64(804 * q, 1024);
    let quad128 = tdiv128(280 * (q as i128) * (1024 - q as i128), 1048576);
    lin + (quad128 as i64)
}

/// The four-quadrant arctangent, in fixed-point radians.
pub fn atan2_fx(y: i64, x: i64) -> (r: i64)
    requires
        -0x100000 <= y <= 0x100000,
        -0x100000 <= x <= 0x100000,
    ensures
        r == atan2_s(y as int, x as int),
        -3217 <= r <= 3217,
{
    proof {
        lemma_atan2_range(y as int, x as int);
    }
    let ax = if x >= 0 { x } else { -x };
    let ay = if y >= 0 { y } else { -y };
    let base: i64;
    if ax >= ay {
        if ax == 0 {
            base = 0;
        } else {
            proof {
                lemma_tdiv_range(ay as int * 1024, ax as int);
                assert((ay as int) * 1024 <= (ax as int) * 1024) by (nonlinear_arith)
                    requires
                        ay <= ax,
                {
                }
                lemma_tdiv_ordered(ay as int * 1024, ax as int * 1024, ax as int);
                vstd::arithmetic::div_mod::lemma_div_by_multiple(1024, ax as int);
            }
            let q = tdiv128(mul_wide(ay, 1024), ax as i128);
            base = atan_core(q as i64);
        }
    } else {
        proof {
            lemma_tdiv_range(ax as int * 1024, ay as int);
            assert((ax as int) * 1024 <= (ay as int) * 1024) by (nonlinear_arith)
                requires
                    ax <= ay,
            {
            }
            lemma_tdiv_ordered(ax as int * 1024, ay as int * 1024, ay as int);
            vstd::arithmetic::div_mod::lemma_div_by_multiple(1024, ay as int);
        }
        let q = tdiv128(mul_wide(ax, 1024), ay as i128);
        base = 1608 - atan_core(q as i64);
    }
    let qv = if x >= 0 { base } else { 3217 - base };
    if y >= 0 {
        qv
    } else {
        -qv
    }
}

/// The arcsine of a fixed-point value in [-1, 1].
pub fn asin_fx(y: i64) -> (r: i64)
    requires
        -1024 <= y <= 1024,
    ensures
        r == asin_s(y as int),
        -1608 <= r <= 1608,
{
    proof {
        assert(0 <= (y as int) * (y as int) <= 1048576) by (nonlinear_arith)
            requires
                -1024 <= y <= 1024,
        {
        }
        lemma_sqrt_floor_props(1048576 - (y as int) * (y as int));
        assert(sqrt_floor(1048576 - (y as int) * (y as int)) <= 0x100000) by {
            lemma_sqrt_floor_unique(1048576 - (y as int) * (y as int),
                sqrt_floor(1048576 - (y as int) * (y as int)));
            let s = sqrt_floor(1048576 - (y as int) * (y as int));
            assert(s <= 1024) by (nonlinear_arith)
                requires
                    s >= 0,
                    s * s <= 1048576,
            {
            }
        }
        lemma_atan2_range(y as int, sqrt_floor(1048576 - (y as int) * (y as int)));
    }
    let x2 = isqrt128(1048576 - (y as i128) * (y as i128));
    atan2_fx(y, x2 as i64)
}

/// The sine half-wave on [0, pi] in fixed point, by the classical
/// rational approximation `16 x (pi - x) / (5 pi^2 - 4 x (pi - x))`.
pub open spec fn sin_half_s(x: int) -> int
    recommends
        0 <= x <= 3217,
{
    let g = x * (3217 - x);
    tdiv(16384 * g, 51745445 - 4 * g)
}

/// The sine of a fixed-point angle in radians, by range reduction modulo
/// `2 pi` and the half-wave approximation.
pub open spec fn sin_s(a: int) -> int {
    let m = a % 6434;
    if m < 3217 {
        sin_half_s(m)
    } else {
        -sin_half_s(m - 3217)
    }
}

/// The cosine, as the sine a quarter turn ahead.
pub open spec fn cos_s(a: int) -> int {
    sin_s(a + 1608)
}

proof fn lemma_sin_half_range(x: int)
    requires
        0 <= x <= 3217,
    ensures
        -1024 <= sin_half_s(x) <= 1024,
        0 <= sin_half_s(x),
{
    let g = x * (3217 - x);
    assert(0 <= g <= 2587272) by (nonlinear_arith)
        requires
            0 <= x <= 3217,
            g == x * (3217 - x),
    {
    }
    lemma_tdiv_range(16384 * g, 51745445 - 4 * g);
    lemma_tdiv_ordered(16384 * g, 1024 * (51745445 - 4 * g), 51745445 - 4 * g);
    vstd::arithmetic::div_mod::lemma_div_by_multiple(1024, 51745445 - 4 * g);
    assert(16384 * g <= 1024 * (51745445 - 4 * g)) by (nonlinear_arith)
        requires
            0 <= g <= 2587272,
    {
    }
}

pub proof fn lemma_sin_range(a: int)
    ensures
        -1024 <= sin_s(a) <= 1024,
{
    let m = a % 6434;
    vstd::arithmetic::div_mod::lemma_mod_division_less_than_divisor(a, 6434);
    if m < 3217 {
        lemma_sin_half_range(m);
    } else {
        lemma_sin_half_range(m - 3217);
    }
}

/// The Euclidean remainder: always in `[0, m)`.
pub fn emod64(a: i64, m: i64) -> (r: i64)
    requires
        1 <= m,
    ensures
        r == (a as int) % (m as int),
        0 <= r < m,
{
    proof {
        vstd::arithmetic::div_mod::lemma_mod_division_less_than_divisor(a as int, m as int);
        if a < 0 {
            let qn = (-a as int) / (m as int);
            let rn = (-a as int) % (m as int);
            vstd::arithmetic::div_mod::lemma_fundamental_div_mod(-a as int, m as int);
            vstd::arithmetic::div_mod::lemma_mod_division_less_than_divisor(-a as int, m as int);
            if rn != 0 {
                assert(a as int == (-qn - 1) * (m as int) + (m - rn)) by (nonlinear_arith)
                    requires
                        -a == qn * m + rn,
                {
                }
                vstd::arithmetic::div_mod::lemma_fundamental_div_mod_converse_mod(
                    a as int, m as int, -qn - 1, (m - rn) as int);
            } else {
                assert(a as int == (-qn) * (m as int) + 0) by (nonlinear_arith)
                    requires
                        -a == qn * m + rn,
                        rn == 0,
                {
                }
                vstd::arithmetic::div_mod::lemma_fundamental_div_mod_converse_mod(
                    a as int, m as int, -qn, 0);
            }
        }
        lemma_tdiv_range(a as int, m as int);
    }
    let t = a % m;
    if t < 0 {
        t + m
    } else {
        t
    }
}

/// The sine of a fixed-point angle.
pub fn sin_fx(a: i64) -> (r: i64)
    ensures
        r == sin_s(a as int),
        -1024 <= r <= 1024,
{
    proof {
        lemma_sin_range(a as int);
    }
    let m = emod64(a, 6434);
    let x = if m < 3217 { m } else { m - 3217 };
    proof {
        assert(0 <= (x as int) * (3217 - x as int) <= 2587272) by (nonlinear_arith)
            requires
                0 <= x <= 3217,
        {
        }
        lemma_tdiv_range(16384 * ((x as int) * (3217 - x as int)), 51745445 - 4 * ((x as int) * (3217 - x as int)));
    }
    let g = (x as i128) * (3217 - (x as i128));
    let h = tdiv128(16384 * g, 51745445 - 4 * g) as i64;
    if m < 3217 {
        h
    } else {
        -h
    }
}

/// The cosine of a fixed-point angle.
pub fn cos_fx(a: i64) -> (r: i64)
    requires
        a <= i64::MAX - 1608,
    ensures
        r == cos_s(a as int),
        -1024 <= r <= 1024,
{
    sin_fx(a + 1608)
}

/// The series tail of the negative logarithm on (1/2, 1]: for
/// `y = FX_ONE - u`, `-ln(1 - y/FX_ONE)` up to fourth order, in fixed
/// point.
pub open spec fn ln_series_s(y: int) -> int
    recommends
        0 <= y <= 511,
{
    y + tdiv(y * y, 2048) + tdiv(y * y * y, 3145728) + tdiv(y * y * y * y, 4294967296)
}

/// `-ln(u / FX_ONE)` in fixed point, for `u` in [1, FX_ONE]: double `u`
/// until it exceeds half a unit, adding `ln 2` per doubling, then close
/// with the series tail.
pub open spec fn neg_ln_s(u: int) -> int
    decreases 1024 - u,
{
    if u < 1 || u > 1024 {
        0
    } else if u >= 513 {
        ln_series_s(1024 - u)
    } else {
        710 + neg_ln_s(2 * u)
    }
}

proof fn lemma_ln_series_range(y: int)
    requires
        0 <= y <= 511,
    ensures
        0 <= ln_series_s(y) <= 730,
{
    assert(0 <= y * y <= 261121) by (nonlinear_arith)
        requires
            0 <= y <= 511,
    {
    }
    assert(0 <= y * y * y <= 133432831) by (nonlinear_arith)
        requires
            0 <= y <= 511,
    {
    }
    assert(0 <= y * y * y * y <= 68184176641) by (nonlinear_arith)
        requires
            0 <= y <= 511,
    {
    }
    lemma_tdiv_range(y * y, 2048);
    lemma_tdiv_ordered(y * y, 261121, 2048);
    lemma_tdiv_range(y * y * y, 3145728);
    lemma_tdiv_ordered(y * y * y, 133432831, 3145728);
    lemma_tdiv_range(y * y * y * y, 4294967296);
    lemma_tdiv_ordered(y * y * y * y, 68184176641, 4294967296);
}

pub proof fn lemma_neg_ln_range(u: int)
    requires
        1 <= u <= 1024,
    ensures
        0 <= neg_ln_s(u),
        u >= 513 ==> neg_ln_s(u) <= 730,
        u >= 257 ==> neg_ln_s(u) <= 1440,
        u >= 129 ==> neg_ln_s(u) <= 2150,
        u >= 65 ==> neg_ln_s(u) <= 2860,
        u >= 33 ==> neg_ln_s(u) <= 3570,
        u >= 17 ==> neg_ln_s(u) <= 4280,
        u >= 9 ==> neg_ln_s(u) <= 4990,
        u >= 5 ==> neg_ln_s(u) <= 5700,
        u >= 3 ==> neg_ln_s(u) <= 6410,
        u >= 2 ==> neg_ln_s(u) <= 7120,
        neg_ln_s(u) <= 7830,
    decreases 1024 - u,
{
    if u >= 513 {
        lemma_ln_series_range(1024 - u);
    } else {
        lemma_neg_ln_range(2 * u);
    }
}

/// `-ln(u / FX_ONE)` for a uniform draw `u`, the free-flight sampler of
/// participating media.
pub fn neg_ln_fx(u: i64) -> (r: i64)
    requires
        1 <= u <= 1024,
    ensures
        r == neg_ln_s(u as int),
        0 <= r <= 7830,
    decreases 1024 - u,
{
    proof {
        lemma_neg_ln_range(u as int);
    }
    if u >= 513 {
        let y = 1024 - u;
        proof {
            assert(0 <= (y as int) * (y as int) <= 261121) by (nonlinear_arith)
                requires
                    0 <= y <= 511,
            {
            }
            assert(0 <= (y as int) * (y as int) * (y as int) <= 133432831) by (nonlinear_arith)
                requires
                    0 <= y <= 511,
            {
            }
            assert(0 <= (y as int) * (y as int) * (y as int) * (y as int) <= 68184176641) by (nonlinear_arith)
                requires
                    0 <= y <= 511,
            {
            }
            lemma_tdiv_range((y as int) * (y as int), 2048);
            lemma_tdiv_range((y as int) * (y as int) * (y as int), 3145728);
            lemma_tdiv_range((y as int) * (y as int) * (y as int) * (y as int), 4294967296);
        }
        let y2 = (y as i128) * (y as i128);
        let y3 = y2 * (y as i128);
        let y4 = y3 * (y as i128);
        y + (tdiv128(y2, 2048) as i64) + (tdiv128(y3, 3145728) as i64) + (tdiv128(y4, 4294967296) as i64)
    } else {
        710 + neg_ln_fx(2 * u)
    }
}

/// Bound on a product from bounds on its factors.
pub proof fn lemma_mul_bound(a: int, b: int, m1: int, m2: int)
    by (nonlinear_arith)
    requires
        -m1 <= a <= m1,
        -m2 <= b <= m2,
        0 <= m1,
        0 <= m2,
    ensures
        -(m1 * m2) <= a * b <= m1 * m2,
{
}

/// A product of two 64-bit scalars, exact in a wide intermediate.
pub fn mul_wide(a: i64, b: i64) -> (r: i128)
    ensures
        r == a as int * b as int,
{
    proof {
        lemma_mul_bound(a as int, b as int, 0x8000000000000000, 0x8000000000000000);
    }
    (a as i128) * (b as i128)
}

/// A product of two wide intermediates that are known to stay below 2^62
/// in magnitude, so the product stays below 2^124.
pub fn mul128(a: i128, b: i128) -> (r: i128)
    requires
        -0x4000000000000000 <= a <= 0x4000000000000000,
        -0x4000000000000000 <= b <= 0x4000000000000000,
    ensures
        r == a as int * b as int,
{
    proof {
        lemma_mul_bound(a as int, b as int, 0x4000000000000000, 0x4000000000000000);
    }
    a * b
}

/// Truncated division of a 64-bit scalar by a positive divisor.
pub fn tdiv64(a: i64, b: i64) -> (r: i64)
    requires
        b >= 1,
    ensures
        r == tdiv(a as int, b as int),
{
    proof {
        lemma_tdiv_range(a as int, b as int);
    }
    a / b
}

/// Truncated division of a wide intermediate by a positive divisor.
pub fn tdiv128(a: i128, b: i128) -> (r: i128)
    requires
        b >= 1,
    ensures
        r == tdiv(a as int, b as int),
{
    proof {
        lemma_tdiv_range(a as int, b as int);
    }
    a / b
}

/// Floor division by a positive divisor. For `b > 0` the mathematical
/// (Euclidean) quotient `a / b` rounds toward negative infinity.
pub fn fdiv64(a: i64, b: i64) -> (r: i64)
    requires
        b >= 1,
    ensures
        r == a as int / b as int,
{
    proof {
        lemma_tdiv_range(a as int, b as int);
        if a < 0 {
            let qn = (-a as int) / (b as int);
            let rn = (-a as int) % (b as int);
            vstd::arithmetic::div_mod::lemma_fundamental_div_mod(-a as int, b as int);
            vstd::arithmetic::div_mod::lemma_mod_division_less_than_divisor(-a as int, b as int);
            if rn != 0 {
                assert(a as int == (-qn - 1) * (b as int) + (b - rn)) by (nonlinear_arith)
                    requires
                        -a == qn * b + rn,
                {
                }
                vstd::arithmetic::div_mod::lemma_fundamental_div_mod_converse_div(
                    a as int, b as int, -qn - 1, (b - rn) as int);
            } else {
                assert(a as int == (-qn) * (b as int) + 0) by (nonlinear_arith)
                    requires
                        -a == qn * b + rn,
                        rn == 0,
                {
                }
                vstd::arithmetic::div_mod::lemma_fundamental_div_mod_converse_div(
                    a as int, b as int, -qn, 0);
            }
        }
    }
    let q = a / b;
    let m = a % b;
    if m != 0 && a < 0 {
        q - 1
    } else {
        q
    }
}

/// The mathematical floor of the square root: the greatest `r >= 0` with
/// `r * r <= n` (and 0 for negative `n`).
pub open spec fn sqrt_floor(n: int) -> int
    decreases (if n >= 1 { n } else { 0 }),
{
    if n < 1 {
        0
    } else {
        let p = sqrt_floor(n - 1);
        if (p + 1) * (p + 1) <= n {
            p + 1
        } else {
            p
        }
    }
}

pub proof fn lemma_sqrt_floor_props(n: int)
    ensures
        sqrt_floor(n) >= 0,
        n >= 0 ==> sqrt_floor(n) * sqrt_floor(n) <= n,
        n >= 0 ==> n < (sqrt_floor(n) + 1) * (sqrt_floor(n) + 1),
    decreases (if n >= 1 { n } else { 0 }),
{
    if n >= 1 {
        lemma_sqrt_floor_props(n - 1);
        let p = sqrt_floor(n - 1);
        if (p + 1) * (p + 1) <= n {
            assert(n < ((p + 1) + 1) * ((p + 1) + 1)) by (nonlinear_arith)
                requires
                    n - 1 < (p + 1) * (p + 1),
                    p >= 0,
            {
            }
        }
    }
}

/// Any `r` that brackets `n` between consecutive squares is the floor
/// square root.
pub proof fn lemma_sqrt_floor_unique(n: int, r: int)
    requires
        n >= 0,
        r >= 0,
        r * r <= n,
        n < (r + 1) * (r + 1),
    ensures
        r == sqrt_floor(n),
{
    lemma_sqrt_floor_props(n);
    let s = sqrt_floor(n);
    assert(r == s) by (nonlinear_arith)
        requires
            r >= 0,
            s >= 0,
            r * r <= n,
            n < (r + 1) * (r + 1),
            s * s <= n,
            n < (s + 1) * (s + 1),
    {
    }
}

/// Floor square root of a wide nonnegative intermediate below 2^112.
pub fn isqrt128(n: i128) -> (r: i128)
    requires
        0 <= n < 0x10000000000000000000000000000,
    ensures
        r == sqrt_floor(n as int),
        0 <= r < 0x100000000000000,
{
    let mut lo: i128 = 0;
    let mut hi: i128 = 0x100000000000000;
    proof {
        lemma_mul_bound(hi as int, hi as int, 0x100000000000000, 0x100000000000000);
        assert(n < hi * hi) by (nonlinear_arith)
            requires
                n < 0x10000000000000000000000000000,
                hi == 0x100000000000000,
        {
        }
    }
    while lo + 1 < hi
        invariant
            0 <= lo < hi <= 0x100000000000000,
            lo * lo <= n,
            n < hi * hi,
        decreases hi - lo,
    {
        let mid = lo + (hi - lo) / 2;
        let sq = mul128(mid, mid);
        if sq <= n {
            lo = mid;
        } else {
            hi = mid;
        }
    }
    proof {
        lemma_sqrt_floor_unique(n as int, lo as int);
    }
    lo
}

} // verus!
