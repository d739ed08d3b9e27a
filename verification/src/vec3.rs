//! Three-component fixed-point vectors, points and colors.

use vstd::prelude::*;
use crate::fx::{tdiv, tdiv128, mul_wide, isqrt128, sqrt_floor, FX_ONE};
use crate::fx::{lemma_mul_bound, lemma_tdiv_range, lemma_sqrt_floor_props};
use crate::rng::RandomSource;

verus! {

/// A vector of three fixed-point scalars (1/1024 units per count).
#[derive(Clone, Copy, Debug, PartialEq, Eq, Structural)]
pub struct Vec3 {
    pub x: i64,
    pub y: i64,
    pub z: i64,
}

/// A location in space.
pub type Point3 = Vec3;

/// An RGB radiance or attenuation triple; `FX_ONE` per channel is full
/// intensity, emissive values may exceed it.
pub type Color = Vec3;

/// Componentwise magnitude bound.
pub open spec fn in_bounds(v: Vec3, m: int) -> bool {
    &&& -m <= v.x <= m
    &&& -m <= v.y <= m
    &&& -m <= v.z <= m
}

/// The mathematical dot product of two vectors, over unbounded integers.
pub open spec fn dot_s(a: Vec3, b: Vec3) -> int {
    a.x * b.x + a.y * b.y + a.z * b.z
}

/// The squared length, in squared fixed-point units.
pub open spec fn norm2_s(a: Vec3) -> int {
    dot_s(a, a)
}

pub open spec fn add_s(a: Vec3, b: Vec3) -> Vec3 {
    Vec3 { x: (a.x + b.x) as i64, y: (a.y + b.y) as i64, z: (a.z + b.z) as i64 }
}

pub open spec fn sub_s(a: Vec3, b: Vec3) -> Vec3 {
    Vec3 { x: (a.x - b.x) as i64, y: (a.y - b.y) as i64, z: (a.z - b.z) as i64 }
}

pub open spec fn neg_s(a: Vec3) -> Vec3 {
    Vec3 { x: (-a.x) as i64, y: (-a.y) as i64, z: (-a.z) as i64 }
}

/// The fixed-point unit vector of `a`: each component scaled by
/// `FX_ONE / |a|`, truncated; the zero vector stays zero.
pub open spec fn unit_s(a: Vec3) -> Vec3 {
    let n = sqrt_floor(norm2_s(a));
    if n == 0 {
        Vec3 { x: 0, y: 0, z: 0 }
    } else {
        Vec3 {
            x: tdiv(a.x * 1024, n) as i64,
            y: tdiv(a.y * 1024, n) as i64,
            z: tdiv(a.z * 1024, n) as i64,
        }
    }
}

/// A square dominates the square of any component of the summed squares:
/// each component of `a` is bounded by the floor root of `norm2_s(a)`.
pub proof fn lemma_component_le_norm(a: Vec3)
    ensures
        -sqrt_floor(norm2_s(a)) <= a.x <= sqrt_floor(norm2_s(a)),
        -sqrt_floor(norm2_s(a)) <= a.y <= sqrt_floor(norm2_s(a)),
        -sqrt_floor(norm2_s(a)) <= a.z <= sqrt_floor(norm2_s(a)),
{
    let n2 = norm2_s(a);
    assert(n2 >= a.x * a.x && n2 >= a.y * a.y && n2 >= a.z * a.z && n2 >= 0) by (nonlinear_arith)
        requires
            n2 == a.x * a.x + a.y * a.y + a.z * a.z,
    {
    }
    lemma_sqrt_floor_props(n2);
    let r = sqrt_floor(n2);
    assert(-r <= a.x <= r && -r <= a.y <= r && -r <= a.z <= r) by (nonlinear_arith)
        requires
            n2 >= a.x * a.x,
            n2 >= a.y * a.y,
            n2 >= a.z * a.z,
            r >= 0,
            n2 < (r + 1) * (r + 1),
    {
    }
}

/// The fixed-point unit vector of anything nonzero is genuinely near
/// unit length from below: its largest component carries at least
/// `1/sqrt(3)` of a unit, so its squared length is at least 591^2.
pub proof fn lemma_unit_s_norm_lower(a: Vec3)
    requires
        1 <= norm2_s(a),
    ensures
        norm2_s(unit_s(a)) >= 349281,
{
    let n2 = norm2_s(a);
    lemma_sqrt_floor_props(n2);
    let n = sqrt_floor(n2);
    assert(n >= 1) by {
        if n == 0 {
            assert(n2 < (sqrt_floor(n2) + 1) * (sqrt_floor(n2) + 1));
            assert((0int + 1) * (0int + 1) == 1);
        }
    }
    let ax = if a.x >= 0 { a.x as int } else { -(a.x as int) };
    let ay = if a.y >= 0 { a.y as int } else { -(a.y as int) };
    let az = if a.z >= 0 { a.z as int } else { -(a.z as int) };
    let cm = if ax >= ay && ax >= az {
        ax
    } else if ay >= az {
        ay
    } else {
        az
    };
    assert(3 * (cm * cm) >= n2 && cm >= 0) by (nonlinear_arith)
        requires
            n2 == a.x * a.x + a.y * a.y + a.z * a.z,
            cm >= ax >= 0 || cm >= ay >= 0 || cm >= az >= 0,
            ax == (if a.x >= 0 { a.x as int } else { -(a.x as int) }),
            ay == (if a.y >= 0 { a.y as int } else { -(a.y as int) }),
            az == (if a.z >= 0 { a.z as int } else { -(a.z as int) }),
            cm >= ax,
            cm >= ay,
            cm >= az,
    {
    }
    assert(1024 * cm >= 591 * n) by (nonlinear_arith)
        requires
            3 * (cm * cm) >= n2,
            n * n <= n2,
            cm >= 0,
            n >= 1,
    {
    }
    assert(tdiv(cm * 1024, n) >= 591) by {
        assert(cm * 1024 == 1024 * cm) by (nonlinear_arith)
        {
        }
        assert(591 * n == n * 591) by (nonlinear_arith)
        {
        }
        crate::fx::lemma_tdiv_ordered(n * 591, cm * 1024, n);
        vstd::arithmetic::div_mod::lemma_div_by_multiple(591, n);
    }
    let u = unit_s(a);
    assert(cm == ax || cm == ay || cm == az);
    crate::fx::lemma_tdiv_neg(ax * 1024, n);
    crate::fx::lemma_tdiv_neg(ay * 1024, n);
    crate::fx::lemma_tdiv_neg(az * 1024, n);
    lemma_unit_s_bounds(a);
    lemma_component_le_norm(a);
    assert(-(n * 1024) <= a.x * 1024 <= n * 1024
        && -(n * 1024) <= a.y * 1024 <= n * 1024
        && -(n * 1024) <= a.z * 1024 <= n * 1024) by (nonlinear_arith)
        requires
            -n <= a.x <= n,
            -n <= a.y <= n,
            -n <= a.z <= n,
            n >= 1,
    {
    }
    crate::fx::lemma_tdiv_ordered(a.x * 1024, n * 1024, n);
    crate::fx::lemma_tdiv_ordered(-(n * 1024), a.x * 1024, n);
    crate::fx::lemma_tdiv_ordered(a.y * 1024, n * 1024, n);
    crate::fx::lemma_tdiv_ordered(-(n * 1024), a.y * 1024, n);
    crate::fx::lemma_tdiv_ordered(a.z * 1024, n * 1024, n);
    crate::fx::lemma_tdiv_ordered(-(n * 1024), a.z * 1024, n);
    assert(tdiv(n * 1024, n) == 1024 && tdiv(-(n * 1024), n) == -1024) by {
        vstd::arithmetic::div_mod::lemma_div_by_multiple(1024, n);
        crate::fx::lemma_tdiv_neg(n * 1024, n);
    }
    assert((-(a.x as int)) * 1024 == -(a.x as int * 1024)
        && (-(a.y as int)) * 1024 == -(a.y as int * 1024)
        && (-(a.z as int)) * 1024 == -(a.z as int * 1024)) by (nonlinear_arith)
    {
    }
    assert(u.x as int == tdiv(a.x * 1024, n) && u.y as int == tdiv(a.y * 1024, n)
        && u.z as int == tdiv(a.z * 1024, n));
    assert(norm2_s(u) >= 349281) by (nonlinear_arith)
        requires
            norm2_s(u) == u.x * u.x + u.y * u.y + u.z * u.z,
            (u.x as int == tdiv(cm * 1024, n) || -(u.x as int) == tdiv(cm * 1024, n))
                || (u.y as int == tdiv(cm * 1024, n) || -(u.y as int) == tdiv(cm * 1024, n))
                || (u.z as int == tdiv(cm * 1024, n) || -(u.z as int) == tdiv(cm * 1024, n)),
            tdiv(cm * 1024, n) >= 591,
    {
    }
}

/// The fixed-point unit vector keeps every component within one unit.
pub proof fn lemma_unit_s_bounds(a: Vec3)
    ensures
        in_bounds(unit_s(a), 1024),
{
    let n2 = norm2_s(a);
    lemma_sqrt_floor_props(n2);
    let n = sqrt_floor(n2);
    if n != 0 {
        lemma_component_le_norm(a);
        assert(-(n * 1024) <= a.x * 1024 <= n * 1024
            && -(n * 1024) <= a.y * 1024 <= n * 1024
            && -(n * 1024) <= a.z * 1024 <= n * 1024) by (nonlinear_arith)
            requires
                -n <= a.x <= n,
                -n <= a.y <= n,
                -n <= a.z <= n,
                n >= 1,
        {
        }
        crate::fx::lemma_tdiv_ordered(a.x * 1024, n * 1024, n);
        crate::fx::lemma_tdiv_ordered(-(n * 1024), a.x * 1024, n);
        crate::fx::lemma_tdiv_ordered(a.y * 1024, n * 1024, n);
        crate::fx::lemma_tdiv_ordered(-(n * 1024), a.y * 1024, n);
        crate::fx::lemma_tdiv_ordered(a.z * 1024, n * 1024, n);
        crate::fx::lemma_tdiv_ordered(-(n * 1024), a.z * 1024, n);
        assert(tdiv(n * 1024, n) == 1024 && tdiv(-(n * 1024), n) == -1024) by {
            vstd::arithmetic::div_mod::lemma_div_by_multiple(1024, n);
            crate::fx::lemma_tdiv_neg(n * 1024, n);
        }
    }
}

impl Vec3 {
    pub fn new(x: i64, y: i64, z: i64) -> (r: Vec3)
        ensures
            r == (Vec3 { x, y, z }),
    {
        Vec3 { x, y, z }
    }

    pub fn zero() -> (r: Vec3)
        ensures
            r == (Vec3 { x: 0i64, y: 0i64, z: 0i64 }),
    {
        Vec3 { x: 0, y: 0, z: 0 }
    }

    pub fn add(&self, o: &Vec3) -> (r: Vec3)
        requires
            i64::MIN <= self.x + o.x <= i64::MAX,
            i64::MIN <= self.y + o.y <= i64::MAX,
            i64::MIN <= self.z + o.z <= i64::MAX,
        ensures
            r == add_s(*self, *o),
    {
        Vec3 { x: self.x + o.x, y: self.y + o.y, z: self.z + o.z }
    }

    pub fn sub(&self, o: &Vec3) -> (r: Vec3)
        requires
            i64::MIN <= self.x - o.x <= i64::MAX,
            i64::MIN <= self.y - o.y <= i64::MAX,
            i64::MIN <= self.z - o.z <= i64::MAX,
        ensures
            r == sub_s(*self, *o),
    {
        Vec3 { x: self.x - o.x, y: self.y - o.y, z: self.z - o.z }
    }

    pub fn neg(&self) -> (r: Vec3)
        requires
            self.x > i64::MIN,
            self.y > i64::MIN,
            self.z > i64::MIN,
        ensures
            r == neg_s(*self),
    {
        Vec3 { x: -self.x, y: -self.y, z: -self.z }
    }

    /// Dot product of two componentwise-small vectors.
    pub fn dot(&self, o: &Vec3) -> (r: i64)
        requires
            in_bounds(*self, 0x40000000),
            in_bounds(*o, 0x40000000),
        ensures
            r == dot_s(*self, *o),
    {
        proof {
            lemma_mul_bound(self.x as int, o.x as int, 0x40000000, 0x40000000);
            lemma_mul_bound(self.y as int, o.y as int, 0x40000000, 0x40000000);
            lemma_mul_bound(self.z as int, o.z as int, 0x40000000, 0x40000000);
        }
        let px = mul_wide(self.x, o.x);
        let py = mul_wide(self.y, o.y);
        let pz = mul_wide(self.z, o.z);
        (px + py + pz) as i64
    }

    /// Dot product through a wide intermediate, for larger components.
    pub fn dot_wide(&self, o: &Vec3) -> (r: i128)
        requires
            in_bounds(*self, 0x4000000000000000),
            in_bounds(*o, 0x4000000000000000),
        ensures
            r == dot_s(*self, *o),
    {
        proof {
            lemma_mul_bound(self.x as int, o.x as int, 0x4000000000000000, 0x4000000000000000);
            lemma_mul_bound(self.y as int, o.y as int, 0x4000000000000000, 0x4000000000000000);
            lemma_mul_bound(self.z as int, o.z as int, 0x4000000000000000, 0x4000000000000000);
        }
        let px = mul_wide(self.x, o.x);
        let py = mul_wide(self.y, o.y);
        let pz = mul_wide(self.z, o.z);
        px + py + pz
    }

    /// The squared length of a componentwise-small vector.
    pub fn norm2(&self) -> (r: i64)
        requires
            in_bounds(*self, 0x40000000),
        ensures
            r == norm2_s(*self),
            r >= 0,
    {
        proof {
            assert(norm2_s(*self) >= 0) by (nonlinear_arith)
                requires
                    norm2_s(*self) == self.x * self.x + self.y * self.y + self.z * self.z,
            {
            }
        }
        self.dot(self)
    }

    /// The fixed-point unit vector: `self * FX_ONE / |self|` componentwise,
    /// the zero vector unchanged.
    pub fn unit_vector(&self) -> (r: Vec3)
        requires
            in_bounds(*self, 0x10000000000),
        ensures
            r == unit_s(*self),
            in_bounds(r, 1024),
    {
        proof {
            lemma_unit_s_bounds(*self);
        }
        let n2 = self.dot_wide(self);
        proof {
            assert(n2 >= 0 && n2 <= 0x300000000000000000000) by (nonlinear_arith)
                requires
                    n2 == self.x * self.x + self.y * self.y + self.z * self.z,
                    -0x10000000000 <= self.x <= 0x10000000000,
                    -0x10000000000 <= self.y <= 0x10000000000,
                    -0x10000000000 <= self.z <= 0x10000000000,
            {
            }
        }
        if n2 == 0 {
            proof {
                lemma_sqrt_floor_props(0);
            }
            return Vec3 { x: 0, y: 0, z: 0 };
        }
        let n = isqrt128(n2);
        proof {
            lemma_sqrt_floor_props(n2 as int);
            assert(n >= 1) by {
                if sqrt_floor(n2 as int) == 0 {
                    assert((n2 as int) < (sqrt_floor(n2 as int) + 1) * (sqrt_floor(n2 as int) + 1));
                    assert((0int + 1) * (0int + 1) == 1);
                }
            }
            lemma_component_le_norm(*self);
            lemma_tdiv_range(self.x as int * 1024, n as int);
            lemma_tdiv_range(self.y as int * 1024, n as int);
            lemma_tdiv_range(self.z as int * 1024, n as int);
            lemma_mul_bound(self.x as int, 1024, 0x8000000000000000, 1024);
            lemma_mul_bound(self.y as int, 1024, 0x8000000000000000, 1024);
            lemma_mul_bound(self.z as int, 1024, 0x8000000000000000, 1024);
        }
        let ux = tdiv128(mul_wide(self.x, 1024), n);
        let uy = tdiv128(mul_wide(self.y, 1024), n);
        let uz = tdiv128(mul_wide(self.z, 1024), n);
        Vec3 { x: ux as i64, y: uy as i64, z: uz as i64 }
    }

    /// A sample within the fixed-point unit ball: rejection sampling with a
    /// bounded number of attempts and a fixed fallback, so the call always
    /// returns and every outcome has squared length in `[1, FX_ONE^2]`.
    pub fn rand_unit_sphere(rng: &mut RandomSource) -> (r: Vec3)
        ensures
            in_bounds(r, 1024),
            1 <= norm2_s(r) <= 1024 * 1024,
    {
        let mut tries: u32 = 0;
        while tries < 64
            invariant
                tries <= 64,
            decreases 64 - tries,
        {
            let x = rng.next_in_range(-1024, 1024);
            let y = rng.next_in_range(-1024, 1024);
            let z = rng.next_in_range(-1024, 1024);
            let v = Vec3 { x, y, z };
            let n2 = v.norm2();
            if 1 <= n2 && n2 <= 1024 * 1024 {
                return v;
            }
            tries = tries + 1;
        }
        proof {
            assert(norm2_s(Vec3 { x: 0i64, y: 0i64, z: 512i64 }) == 512 * 512);
        }
        Vec3 { x: 0, y: 0, z: 512 }
    }

    /// A sample of (approximately) unit length: the unit vector of a unit
    /// ball sample. Every outcome has squared length between 591^2 and
    /// 3 * 1024^2: near-unit from below, never the zero vector.
    pub fn rand_unit_vector(rng: &mut RandomSource) -> (r: Vec3)
        ensures
            in_bounds(r, 1024),
            349281 <= norm2_s(r),
            norm2_s(r) <= 3145728,
    {
        let v = Self::rand_unit_sphere(rng);
        proof {
            lemma_unit_s_norm_lower(v);
            lemma_unit_s_bounds(v);
            assert(norm2_s(unit_s(v)) <= 3145728) by (nonlinear_arith)
                requires
                    norm2_s(unit_s(v)) == unit_s(v).x * unit_s(v).x + unit_s(v).y * unit_s(v).y
                        + unit_s(v).z * unit_s(v).z,
                    in_bounds(unit_s(v), 1024),
                    -1024 <= unit_s(v).x <= 1024,
                    -1024 <= unit_s(v).y <= 1024,
                    -1024 <= unit_s(v).z <= 1024,
            {
            }
        }
        v.unit_vector()
    }
}

} // verus!
