//! A seeded value-noise field with summed-octave turbulence, mapped into
//! a marbled pattern.

use vstd::prelude::*;
use crate::fx::{tdiv, tdiv64, tdiv128, fdiv64, sin_s, sin_fx, lemma_mul_bound, lemma_tdiv_range, lemma_tdiv_ordered, COORD_MAX};
use crate::vec3::{Vec3, Color, Point3, in_bounds};

verus! {

/// A deterministic marbled field: a seeded lattice noise with four
/// summed octaves of turbulence, mapped through
/// `(1 + sin(scale z + 10 turbulence)) / 2`.
#[derive(Clone, Debug)]
pub struct NoiseTexture {
    pub scale: i64,
    pub seed: i64,
}

pub open spec fn wf_noise(n: NoiseTexture) -> bool {
    &&& -COORD_MAX <= n.scale <= COORD_MAX
    &&& 0 <= n.seed <= COORD_MAX
}

/// The seeded hash of one lattice corner, in [0, FX_ONE].
pub open spec fn corner_hash_s(ix: int, iy: int, iz: int, seed: int) -> int {
    ((ix + 1073741824) * 73856093 + (iy + 1073741824) * 19349663 + (iz + 1073741824) * 83492791
        + seed * 2654435761) % 1025
}

/// The cubic smoothing weight `f^2 (3 - 2 f)` in fixed point.
pub open spec fn smooth_s(f: int) -> int
    recommends
        0 <= f < 1024,
{
    tdiv(f * f * (3072 - 2 * f), 1048576)
}

proof fn lemma_smooth_range(f: int)
    requires
        0 <= f < 1024,
    ensures
        0 <= smooth_s(f) <= 1024,
{
    assert(0 <= f * f * (3072 - 2 * f) <= 1073741824) by (nonlinear_arith)
        requires
            0 <= f < 1024,
    {
    }
    lemma_tdiv_range(f * f * (3072 - 2 * f), 1048576);
    lemma_tdiv_ordered(f * f * (3072 - 2 * f), 1073741824, 1048576);
    vstd::arithmetic::div_mod::lemma_div_by_multiple(1024, 1048576);
}

/// The trilinear blend of the eight corner hashes around a point, with
/// cubic weights: a smooth field in [0, FX_ONE].
pub open spec fn lattice_noise_s(px: int, py: int, pz: int, seed: int) -> int {
    let ix = px / 1024;
    let iy = py / 1024;
    let iz = pz / 1024;
    let wx = smooth_s(px - 1024 * ix);
    let wy = smooth_s(py - 1024 * iy);
    let wz = smooth_s(pz - 1024 * iz);
    let ux = 1024 - wx;
    let uy = 1024 - wy;
    let uz = 1024 - wz;
    let total = corner_hash_s(ix, iy, iz, seed) * (ux * uy * uz)
        + corner_hash_s(ix, iy, iz + 1, seed) * (ux * uy * wz)
        + corner_hash_s(ix, iy + 1, iz, seed) * (ux * wy * uz)
        + corner_hash_s(ix, iy + 1, iz + 1, seed) * (ux * wy * wz)
        + corner_hash_s(ix + 1, iy, iz, seed) * (wx * uy * uz)
        + corner_hash_s(ix + 1, iy, iz + 1, seed) * (wx * uy * wz)
        + corner_hash_s(ix + 1, iy + 1, iz, seed) * (wx * wy * uz)
        + corner_hash_s(ix + 1, iy + 1, iz + 1, seed) * (wx * wy * wz);
    tdiv(total, 1073741824)
}

/// Four octaves of the lattice field, each half the weight of the last.
pub open spec fn turb_s(px: int, py: int, pz: int, seed: int) -> int {
    tdiv(
        lattice_noise_s(px, py, pz, seed) * 512 + lattice_noise_s(2 * px, 2 * py, 2 * pz, seed) * 256
            + lattice_noise_s(4 * px, 4 * py, 4 * pz, seed) * 128
            + lattice_noise_s(8 * px, 8 * py, 8 * pz, seed) * 64,
        1024,
    )
}

/// The marbled gray at a point.
pub open spec fn noise_value_s(n: NoiseTexture, p: Point3) -> Color {
    let arg = tdiv(n.scale * p.z, 1024) + 10 * turb_s(p.x as int, p.y as int, p.z as int, n.seed as int);
    let g = tdiv(512 * (1024 + sin_s(arg)), 1024) as i64;
    Vec3 { x: g, y: g, z: g }
}

pub proof fn lemma_lattice_noise_range(px: int, py: int, pz: int, seed: int)
    ensures
        0 <= lattice_noise_s(px, py, pz, seed) <= 1024,
{
    let ix = px / 1024;
    let iy = py / 1024;
    let iz = pz / 1024;
    vstd::arithmetic::div_mod::lemma_fundamental_div_mod(px, 1024);
    vstd::arithmetic::div_mod::lemma_mod_division_less_than_divisor(px, 1024);
    vstd::arithmetic::div_mod::lemma_fundamental_div_mod(py, 1024);
    vstd::arithmetic::div_mod::lemma_mod_division_less_than_divisor(py, 1024);
    vstd::arithmetic::div_mod::lemma_fundamental_div_mod(pz, 1024);
    vstd::arithmetic::div_mod::lemma_mod_division_less_than_divisor(pz, 1024);
    lemma_smooth_range(px - 1024 * ix);
    lemma_smooth_range(py - 1024 * iy);
    lemma_smooth_range(pz - 1024 * iz);
    lemma_corner_hash_range(ix, iy, iz, seed);
    lemma_corner_hash_range(ix, iy, iz + 1, seed);
    lemma_corner_hash_range(ix, iy + 1, iz, seed);
    lemma_corner_hash_range(ix, iy + 1, iz + 1, seed);
    lemma_corner_hash_range(ix + 1, iy, iz, seed);
    lemma_corner_hash_range(ix + 1, iy, iz + 1, seed);
    lemma_corner_hash_range(ix + 1, iy + 1, iz, seed);
    lemma_corner_hash_range(ix + 1, iy + 1, iz + 1, seed);
    let wx = smooth_s(px - 1024 * ix);
    let wy = smooth_s(py - 1024 * iy);
    let wz = smooth_s(pz - 1024 * iz);
    lemma_blend_bound(
        corner_hash_s(ix, iy, iz, seed),
        corner_hash_s(ix, iy, iz + 1, seed),
        corner_hash_s(ix, iy + 1, iz, seed),
        corner_hash_s(ix, iy + 1, iz + 1, seed),
        corner_hash_s(ix + 1, iy, iz, seed),
        corner_hash_s(ix + 1, iy, iz + 1, seed),
        corner_hash_s(ix + 1, iy + 1, iz, seed),
        corner_hash_s(ix + 1, iy + 1, iz + 1, seed),
        wx, wy, wz,
    );
    let total = corner_hash_s(ix, iy, iz, seed) * ((1024 - wx) * (1024 - wy) * (1024 - wz))
        + corner_hash_s(ix, iy, iz + 1, seed) * ((1024 - wx) * (1024 - wy) * wz)
        + corner_hash_s(ix, iy + 1, iz, seed) * ((1024 - wx) * wy * (1024 - wz))
        + corner_hash_s(ix, iy + 1, iz + 1, seed) * ((1024 - wx) * wy * wz)
        + corner_hash_s(ix + 1, iy, iz, seed) * (wx * (1024 - wy) * (1024 - wz))
        + corner_hash_s(ix + 1, iy, iz + 1, seed) * (wx * (1024 - wy) * wz)
        + corner_hash_s(ix + 1, iy + 1, iz, seed) * (wx * wy * (1024 - wz))
        + corner_hash_s(ix + 1, iy + 1, iz + 1, seed) * (wx * wy * wz);
    lemma_tdiv_range(total, 1073741824);
    lemma_tdiv_ordered(total, 1024int * 1073741824, 1073741824);
    vstd::arithmetic::div_mod::lemma_div_by_multiple(1024, 1073741824);
}

pub proof fn lemma_corner_hash_range(ix: int, iy: int, iz: int, seed: int)
    ensures
        0 <= corner_hash_s(ix, iy, iz, seed) <= 1024,
{
    vstd::arithmetic::div_mod::lemma_mod_division_less_than_divisor(
        (ix + 1073741824) * 73856093 + (iy + 1073741824) * 19349663 + (iz + 1073741824) * 83492791
            + seed * 2654435761,
        1025,
    );
}

/// A term of the blend lies between 0 and FX_ONE times its weight.
proof fn lemma_blend_term(c: int, w: int)
    by (nonlinear_arith)
    requires
        0 <= c <= 1024,
        0 <= w,
    ensures
        0 <= c * w <= 1024 * w,
{
}

/// A convex blend of values in [0, FX_ONE], with nonnegative trilinear
/// weights that sum to FX_ONE^3, stays within FX_ONE * FX_ONE^3.
proof fn lemma_blend_bound(
    c0: int, c1: int, c2: int, c3: int, c4: int, c5: int, c6: int, c7: int,
    wx: int, wy: int, wz: int,
)
    requires
        0 <= c0 <= 1024,
        0 <= c1 <= 1024,
        0 <= c2 <= 1024,
        0 <= c3 <= 1024,
        0 <= c4 <= 1024,
        0 <= c5 <= 1024,
        0 <= c6 <= 1024,
        0 <= c7 <= 1024,
        0 <= wx <= 1024,
        0 <= wy <= 1024,
        0 <= wz <= 1024,
    ensures
        0 <= c0 * ((1024 - wx) * (1024 - wy) * (1024 - wz)) + c1 * ((1024 - wx) * (1024 - wy) * wz)
            + c2 * ((1024 - wx) * wy * (1024 - wz)) + c3 * ((1024 - wx) * wy * wz)
            + c4 * (wx * (1024 - wy) * (1024 - wz)) + c5 * (wx * (1024 - wy) * wz)
            + c6 * (wx * wy * (1024 - wz)) + c7 * (wx * wy * wz)
            <= 1024 * 1073741824,
{
    let ux = 1024 - wx;
    let uy = 1024 - wy;
    let uz = 1024 - wz;
    assert(0 <= ux * uy * uz && 0 <= ux * uy * wz && 0 <= ux * wy * uz && 0 <= ux * wy * wz
        && 0 <= wx * uy * uz && 0 <= wx * uy * wz && 0 <= wx * wy * uz && 0 <= wx * wy * wz)
        by (nonlinear_arith)
        requires
            0 <= ux,
            0 <= uy,
            0 <= uz,
            0 <= wx,
            0 <= wy,
            0 <= wz,
    {
    }
    lemma_blend_term(c0, ux * uy * uz);
    lemma_blend_term(c1, ux * uy * wz);
    lemma_blend_term(c2, ux * wy * uz);
    lemma_blend_term(c3, ux * wy * wz);
    lemma_blend_term(c4, wx * uy * uz);
    lemma_blend_term(c5, wx * uy * wz);
    lemma_blend_term(c6, wx * wy * uz);
    lemma_blend_term(c7, wx * wy * wz);
    assert(ux * uy * uz + ux * uy * wz == ux * uy * 1024) by (nonlinear_arith)
        requires
            uz + wz == 1024,
    {
    }
    assert(ux * wy * uz + ux * wy * wz == ux * wy * 1024) by (nonlinear_arith)
        requires
            uz + wz == 1024,
    {
    }
    assert(wx * uy * uz + wx * uy * wz == wx * uy * 1024) by (nonlinear_arith)
        requires
            uz + wz == 1024,
    {
    }
    assert(wx * wy * uz + wx * wy * wz == wx * wy * 1024) by (nonlinear_arith)
        requires
            uz + wz == 1024,
    {
    }
    assert(ux * uy * 1024 + ux * wy * 1024 == ux * 1048576) by (nonlinear_arith)
        requires
            uy + wy == 1024,
    {
    }
    assert(wx * uy * 1024 + wx * wy * 1024 == wx * 1048576) by (nonlinear_arith)
        requires
            uy + wy == 1024,
    {
    }
    assert(ux * 1048576 + wx * 1048576 == 1073741824) by (nonlinear_arith)
        requires
            ux + wx == 1024,
    {
    }
    assert(1024 * (ux * uy * uz) + 1024 * (ux * uy * wz) + 1024 * (ux * wy * uz) + 1024 * (ux * wy * wz)
        + 1024 * (wx * uy * uz) + 1024 * (wx * uy * wz) + 1024 * (wx * wy * uz) + 1024 * (wx * wy * wz)
        == 1024 * 1073741824) by (nonlinear_arith)
        requires
            ux * uy * uz + ux * uy * wz + ux * wy * uz + ux * wy * wz
                + wx * uy * uz + wx * uy * wz + wx * wy * uz + wx * wy * wz == 1073741824,
    {
    }
}

pub proof fn lemma_noise_value_bounds(n: NoiseTexture, p: Point3)
    ensures
        0 <= noise_value_s(n, p).x <= 1024,
        noise_value_s(n, p).y == noise_value_s(n, p).x,
        noise_value_s(n, p).z == noise_value_s(n, p).x,
{
    let arg = tdiv(n.scale as int * p.z as int, 1024)
        + 10 * turb_s(p.x as int, p.y as int, p.z as int, n.seed as int);
    crate::fx::lemma_sin_range(arg);
    lemma_tdiv_range(512 * (1024 + sin_s(arg)), 1024);
    lemma_tdiv_ordered(512 * (1024 + sin_s(arg)), 512int * 2048, 1024);
    vstd::arithmetic::div_mod::lemma_div_by_multiple(1024, 1024);
}

/// One lattice corner hash in executable code.
fn corner_hash(ix: i64, iy: i64, iz: i64, seed: i64) -> (r: i64)
    requires
        -0x100000000 <= ix <= 0x100000000,
        -0x100000000 <= iy <= 0x100000000,
        -0x100000000 <= iz <= 0x100000000,
        0 <= seed <= COORD_MAX,
    ensures
        r == corner_hash_s(ix as int, iy as int, iz as int, seed as int),
        0 <= r <= 1024,
{
    proof {
        lemma_corner_hash_range(ix as int, iy as int, iz as int, seed as int);
        lemma_mul_bound(ix as int + 1073741824, 73856093, 0x140000000, 0x8000000);
        lemma_mul_bound(iy as int + 1073741824, 19349663, 0x140000000, 0x8000000);
        lemma_mul_bound(iz as int + 1073741824, 83492791, 0x140000000, 0x8000000);
        lemma_mul_bound(seed as int, 2654435761, COORD_MAX as int, 0x100000000);
    }
    let acc: i128 = ((ix as i128) + 1073741824) * 73856093 + ((iy as i128) + 1073741824) * 19349663
        + ((iz as i128) + 1073741824) * 83492791 + (seed as i128) * 2654435761;
    let q = tdiv128(acc, 1025);
    let m = acc - 1025 * q;
    proof {
        lemma_tdiv_range(acc as int, 1025);
        if acc >= 0 {
            vstd::arithmetic::div_mod::lemma_fundamental_div_mod(acc as int, 1025);
            vstd::arithmetic::div_mod::lemma_mod_division_less_than_divisor(acc as int, 1025);
        }
    }
    if acc >= 0 {
        m as i64
    } else {
        proof {
            lemma_emod_neg(acc as int, 1025);
        }
        let mm = emod_neg_exec(acc);
        mm
    }
}

/// The Euclidean remainder modulo 1025 of a negative wide value.
fn emod_neg_exec(a: i128) -> (r: i64)
    requires
        a < 0,
        -0x10000000000000000 <= a,
    ensures
        r == (a as int) % 1025,
        0 <= r <= 1024,
{
    proof {
        lemma_emod_neg(a as int, 1025);
        lemma_tdiv_range(-(a as int), 1025);
    }
    let qn = tdiv128(-a, 1025);
    let rn = (-a) - 1025 * qn;
    proof {
        vstd::arithmetic::div_mod::lemma_fundamental_div_mod(-(a as int), 1025);
        vstd::arithmetic::div_mod::lemma_mod_division_less_than_divisor(-(a as int), 1025);
    }
    if rn == 0 {
        0
    } else {
        (1025 - rn) as i64
    }
}

proof fn lemma_emod_neg(a: int, m: int)
    requires
        a < 0,
        m >= 1,
    ensures
        ((-a) % m == 0) ==> a % m == 0,
        ((-a) % m != 0) ==> a % m == m - ((-a) % m),
        0 <= a % m < m,
{
    let qn = (-a) / m;
    let rn = (-a) % m;
    vstd::arithmetic::div_mod::lemma_fundamental_div_mod(-a, m);
    vstd::arithmetic::div_mod::lemma_mod_division_less_than_divisor(-a, m);
    vstd::arithmetic::div_mod::lemma_mod_division_less_than_divisor(a, m);
    if rn != 0 {
        assert(a == (-qn - 1) * m + (m - rn)) by (nonlinear_arith)
            requires
                -a == qn * m + rn,
        {
        }
        vstd::arithmetic::div_mod::lemma_fundamental_div_mod_converse_mod(a, m, -qn - 1, m - rn);
    } else {
        assert(a == (-qn) * m + 0) by (nonlinear_arith)
            requires
                -a == qn * m + rn,
                rn == 0,
        {
        }
        vstd::arithmetic::div_mod::lemma_fundamental_div_mod_converse_mod(a, m, -qn, 0);
    }
}

/// One blended lattice cell: the weighted average of the eight corner
/// hashes.
#[verifier::rlimit(60)]
fn blend8(c000: i64, c001: i64, c010: i64, c011: i64, c100: i64, c101: i64, c110: i64, c111: i64,
    wx: i64, wy: i64, wz: i64) -> (r: i64)
    requires
        0 <= c000 <= 1024,
        0 <= c001 <= 1024,
        0 <= c010 <= 1024,
        0 <= c011 <= 1024,
        0 <= c100 <= 1024,
        0 <= c101 <= 1024,
        0 <= c110 <= 1024,
        0 <= c111 <= 1024,
        0 <= wx <= 1024,
        0 <= wy <= 1024,
        0 <= wz <= 1024,
    ensures
        r as int == tdiv(
            c000 * ((1024 - wx) * (1024 - wy) * (1024 - wz)) + c001 * ((1024 - wx) * (1024 - wy) * wz)
                + c010 * ((1024 - wx) * wy * (1024 - wz)) + c011 * ((1024 - wx) * wy * wz)
                + c100 * (wx * (1024 - wy) * (1024 - wz)) + c101 * (wx * (1024 - wy) * wz)
                + c110 * (wx * wy * (1024 - wz)) + c111 * (wx * wy * wz),
            1073741824,
        ),
        0 <= r <= 1024,
{
    proof {
        lemma_blend_bound(c000 as int, c001 as int, c010 as int, c011 as int,
            c100 as int, c101 as int, c110 as int, c111 as int, wx as int, wy as int, wz as int);
        lemma_tdiv_range(
            (c000 as int) * ((1024 - wx as int) * (1024 - wy as int) * (1024 - wz as int))
                + (c001 as int) * ((1024 - wx as int) * (1024 - wy as int) * (wz as int))
                + (c010 as int) * ((1024 - wx as int) * (wy as int) * (1024 - wz as int))
                + (c011 as int) * ((1024 - wx as int) * (wy as int) * (wz as int))
                + (c100 as int) * ((wx as int) * (1024 - wy as int) * (1024 - wz as int))
                + (c101 as int) * ((wx as int) * (1024 - wy as int) * (wz as int))
                + (c110 as int) * ((wx as int) * (wy as int) * (1024 - wz as int))
                + (c111 as int) * ((wx as int) * (wy as int) * (wz as int)),
            1073741824,
        );
        lemma_tdiv_ordered(
            (c000 as int) * ((1024 - wx as int) * (1024 - wy as int) * (1024 - wz as int))
                + (c001 as int) * ((1024 - wx as int) * (1024 - wy as int) * (wz as int))
                + (c010 as int) * ((1024 - wx as int) * (wy as int) * (1024 - wz as int))
                + (c011 as int) * ((1024 - wx as int) * (wy as int) * (wz as int))
                + (c100 as int) * ((wx as int) * (1024 - wy as int) * (1024 - wz as int))
                + (c101 as int) * ((wx as int) * (1024 - wy as int) * (wz as int))
                + (c110 as int) * ((wx as int) * (wy as int) * (1024 - wz as int))
                + (c111 as int) * ((wx as int) * (wy as int) * (wz as int)),
            1024int * 1073741824,
            1073741824,
        );
        vstd::arithmetic::div_mod::lemma_div_by_multiple(1024, 1073741824);
    }
    let ux = 1024 - wx;
    let uy = 1024 - wy;
    let uz = 1024 - wz;
    proof {
        assert(0 <= (ux as int) * (uy as int) <= 1048576 && 0 <= (ux as int) * (wy as int) <= 1048576
            && 0 <= (wx as int) * (uy as int) <= 1048576 && 0 <= (wx as int) * (wy as int) <= 1048576)
            by (nonlinear_arith)
            requires
                0 <= ux <= 1024,
                0 <= uy <= 1024,
                0 <= wx <= 1024,
                0 <= wy <= 1024,
        {
        }
        lemma_mul_bound((ux as int) * (uy as int), uz as int, 1048576, 1024);
        lemma_mul_bound((ux as int) * (uy as int), wz as int, 1048576, 1024);
        lemma_mul_bound((ux as int) * (wy as int), uz as int, 1048576, 1024);
        lemma_mul_bound((ux as int) * (wy as int), wz as int, 1048576, 1024);
        lemma_mul_bound((wx as int) * (uy as int), uz as int, 1048576, 1024);
        lemma_mul_bound((wx as int) * (uy as int), wz as int, 1048576, 1024);
        lemma_mul_bound((wx as int) * (wy as int), uz as int, 1048576, 1024);
        lemma_mul_bound((wx as int) * (wy as int), wz as int, 1048576, 1024);
    }
    let w000 = crate::fx::mul128(crate::fx::mul128(ux as i128, uy as i128), uz as i128);
    let w001 = crate::fx::mul128(crate::fx::mul128(ux as i128, uy as i128), wz as i128);
    let w010 = crate::fx::mul128(crate::fx::mul128(ux as i128, wy as i128), uz as i128);
    let w011 = crate::fx::mul128(crate::fx::mul128(ux as i128, wy as i128), wz as i128);
    let w100 = crate::fx::mul128(crate::fx::mul128(wx as i128, uy as i128), uz as i128);
    let w101 = crate::fx::mul128(crate::fx::mul128(wx as i128, uy as i128), wz as i128);
    let w110 = crate::fx::mul128(crate::fx::mul128(wx as i128, wy as i128), uz as i128);
    let w111 = crate::fx::mul128(crate::fx::mul128(wx as i128, wy as i128), wz as i128);
    let total: i128 = crate::fx::mul128(c000 as i128, w000) + crate::fx::mul128(c001 as i128, w001)
        + crate::fx::mul128(c010 as i128, w010) + crate::fx::mul128(c011 as i128, w011)
        + crate::fx::mul128(c100 as i128, w100) + crate::fx::mul128(c101 as i128, w101)
        + crate::fx::mul128(c110 as i128, w110) + crate::fx::mul128(c111 as i128, w111);
    tdiv128(total, 1073741824) as i64
}

/// The smooth lattice field at wide fixed-point coordinates.
#[verifier::rlimit(60)]
fn lattice_noise(px: i64, py: i64, pz: i64, seed: i64) -> (r: i64)
    requires
        -0x4000000000 <= px <= 0x4000000000,
        -0x4000000000 <= py <= 0x4000000000,
        -0x4000000000 <= pz <= 0x4000000000,
        0 <= seed <= COORD_MAX,
    ensures
        r == lattice_noise_s(px as int, py as int, pz as int, seed as int),
        0 <= r <= 1024,
{
    let ix = fdiv64(px, 1024);
    let iy = fdiv64(py, 1024);
    let iz = fdiv64(pz, 1024);
    proof {
        vstd::arithmetic::div_mod::lemma_fundamental_div_mod(px as int, 1024);
        vstd::arithmetic::div_mod::lemma_mod_division_less_than_divisor(px as int, 1024);
        vstd::arithmetic::div_mod::lemma_fundamental_div_mod(py as int, 1024);
        vstd::arithmetic::div_mod::lemma_mod_division_less_than_divisor(py as int, 1024);
        vstd::arithmetic::div_mod::lemma_fundamental_div_mod(pz as int, 1024);
        vstd::arithmetic::div_mod::lemma_mod_division_less_than_divisor(pz as int, 1024);
    }
    let fx_ = px - 1024 * ix;
    let fy_ = py - 1024 * iy;
    let fz_ = pz - 1024 * iz;
    let wx = smooth(fx_);
    let wy = smooth(fy_);
    let wz = smooth(fz_);
    let c000 = corner_hash(ix, iy, iz, seed);
    let c001 = corner_hash(ix, iy, iz + 1, seed);
    let c010 = corner_hash(ix, iy + 1, iz, seed);
    let c011 = corner_hash(ix, iy + 1, iz + 1, seed);
    let c100 = corner_hash(ix + 1, iy, iz, seed);
    let c101 = corner_hash(ix + 1, iy, iz + 1, seed);
    let c110 = corner_hash(ix + 1, iy + 1, iz, seed);
    let c111 = corner_hash(ix + 1, iy + 1, iz + 1, seed);
    blend8(c000, c001, c010, c011, c100, c101, c110, c111, wx, wy, wz)
}

/// Bounds on all eight weighted terms at once.
proof fn lemma_blend_parts(
    c0: int, c1: int, c2: int, c3: int, c4: int, c5: int, c6: int, c7: int,
    wx: int, wy: int, wz: int,
)
    by (nonlinear_arith)
    requires
        0 <= c0 <= 1024,
        0 <= c1 <= 1024,
        0 <= c2 <= 1024,
        0 <= c3 <= 1024,
        0 <= c4 <= 1024,
        0 <= c5 <= 1024,
        0 <= c6 <= 1024,
        0 <= c7 <= 1024,
        0 <= wx <= 1024,
        0 <= wy <= 1024,
        0 <= wz <= 1024,
    ensures
        0 <= c0 * ((1024 - wx) * (1024 - wy) * (1024 - wz)) <= 0x100000000000,
        0 <= c1 * ((1024 - wx) * (1024 - wy) * wz) <= 0x100000000000,
        0 <= c2 * ((1024 - wx) * wy * (1024 - wz)) <= 0x100000000000,
        0 <= c3 * ((1024 - wx) * wy * wz) <= 0x100000000000,
        0 <= c4 * (wx * (1024 - wy) * (1024 - wz)) <= 0x100000000000,
        0 <= c5 * (wx * (1024 - wy) * wz) <= 0x100000000000,
        0 <= c6 * (wx * wy * (1024 - wz)) <= 0x100000000000,
        0 <= c7 * (wx * wy * wz) <= 0x100000000000,
{
}

/// The cubic smoothing weight in executable code.
fn smooth(f: i64) -> (r: i64)
    requires
        0 <= f < 1024,
    ensures
        r == smooth_s(f as int),
        0 <= r <= 1024,
{
    proof {
        lemma_smooth_range(f as int);
        assert(0 <= (f as int) * (f as int) * (3072 - 2 * (f as int)) <= 1073741824) by (nonlinear_arith)
            requires
                0 <= f < 1024,
        {
        }
    }
    proof {
        assert(0 <= (f as int) * (f as int) <= 1048576) by (nonlinear_arith)
            requires
                0 <= f < 1024,
        {
        }
    }
    let f2 = crate::fx::mul_wide(f, f);
    let w = crate::fx::mul128(f2, 3072 - 2 * (f as i128));
    tdiv128(w, 1048576) as i64
}

impl NoiseTexture {
    pub fn new(scale: i64, seed: i64) -> (r: NoiseTexture)
        ensures
            r == (NoiseTexture { scale, seed }),
    {
        NoiseTexture { scale, seed }
    }

    /// The marbled gray at a point.
    pub fn value(&self, _u: i64, _v: i64, p: &Point3) -> (r: Color)
        requires
            wf_noise(*self),
            in_bounds(*p, crate::fx::P_MAX as int),
        ensures
            r == noise_value_s(*self, *p),
    {
        proof {
            lemma_mul_bound(self.scale as int, p.z as int, COORD_MAX as int, crate::fx::P_MAX as int);
            lemma_tdiv_range(self.scale as int * p.z as int, 1024);
        }
        let n0 = lattice_noise(p.x, p.y, p.z, self.seed);
        let n1 = lattice_noise(2 * p.x, 2 * p.y, 2 * p.z, self.seed);
        let n2 = lattice_noise(4 * p.x, 4 * p.y, 4 * p.z, self.seed);
        let n3 = lattice_noise(8 * p.x, 8 * p.y, 8 * p.z, self.seed);
        proof {
            lemma_tdiv_range(n0 as int * 512 + n1 as int * 256 + n2 as int * 128 + n3 as int * 64, 1024);
        }
        let turb = tdiv64(n0 * 512 + n1 * 256 + n2 * 128 + n3 * 64, 1024);
        let base = tdiv128(((self.scale as i128) * (p.z as i128)), 1024);
        let arg = (base as i64) + 10 * turb;
        let s = sin_fx(arg);
        proof {
            lemma_tdiv_range(512 * (1024 + s as int), 1024);
        }
        let g = tdiv64(512 * (1024 + s), 1024);
        Vec3 { x: g, y: g, z: g }
    }
}

} // verus!
