//! Scattering and emission policies: the closed family of surface and
//! volume materials.

use vstd::prelude::*;
use crate::fx::{tdiv, tdiv128, mul_wide, lemma_mul_bound, lemma_tdiv_range, lemma_tdiv_ordered};
use crate::ray::{Ray, wf_ray};
use crate::rng::RandomSource;
use crate::vec3::{Vec3, Color, Point3, in_bounds, dot_s, norm2_s, unit_s};
use crate::hittable::HitRecord;
use crate::texture::texture_value_s;

pub mod dielectric;
pub use dielectric::Dielectric;

pub mod lambertian;
pub use lambertian::Lambertian;

pub mod metal;
pub use metal::Metal;

pub mod diffuse_light;
pub use diffuse_light::DiffuseLight;

pub mod isotropic;
pub use isotropic::Isotropic;

verus! {

/// What every scatter call may assume of its inputs: a well-formed
/// incoming ray and a hit record as the intersection engine reports it.
pub open spec fn scatter_inputs_ok(r_in: Ray, rec: HitRecord) -> bool {
    &&& wf_ray(r_in)
    &&& in_bounds(rec.normal, 1024)
    &&& in_bounds(rec.p, crate::fx::P_MAX as int)
    &&& 0 <= rec.u <= 1024
    &&& 0 <= rec.v <= 1024
}

/// The mirror reflection `v - 2 (v . n) n` for a unit-scaled normal, in
/// fixed point.
pub open spec fn reflect_s(v: Vec3, n: Vec3) -> Vec3 {
    Vec3 {
        x: (v.x - tdiv(2 * dot_s(v, n) * n.x, 1048576)) as i64,
        y: (v.y - tdiv(2 * dot_s(v, n) * n.y, 1048576)) as i64,
        z: (v.z - tdiv(2 * dot_s(v, n) * n.z, 1048576)) as i64,
    }
}

/// Mirror reflection of a unit-scaled vector about a unit-scaled normal.
pub fn reflect(v: &Vec3, n: &Vec3) -> (r: Vec3)
    requires
        in_bounds(*v, 1024),
        in_bounds(*n, 1024),
    ensures
        r == reflect_s(*v, *n),
        in_bounds(r, 0x4000),
{
    proof {
        lemma_mul_bound(v.x as int, n.x as int, 1024, 1024);
        lemma_mul_bound(v.y as int, n.y as int, 1024, 1024);
        lemma_mul_bound(v.z as int, n.z as int, 1024, 1024);
        lemma_mul_bound(2 * dot_s(*v, *n), n.x as int, 0x600000, 1024);
        lemma_mul_bound(2 * dot_s(*v, *n), n.y as int, 0x600000, 1024);
        lemma_mul_bound(2 * dot_s(*v, *n), n.z as int, 0x600000, 1024);
        lemma_tdiv_range(2 * dot_s(*v, *n) * n.x, 1048576);
        lemma_tdiv_range(2 * dot_s(*v, *n) * n.y, 1048576);
        lemma_tdiv_range(2 * dot_s(*v, *n) * n.z, 1048576);
        lemma_tdiv_ordered(2 * dot_s(*v, *n) * n.x, 0x180000000, 1048576);
        lemma_tdiv_ordered(-0x180000000, 2 * dot_s(*v, *n) * n.x, 1048576);
        lemma_tdiv_ordered(2 * dot_s(*v, *n) * n.y, 0x180000000, 1048576);
        lemma_tdiv_ordered(-0x180000000, 2 * dot_s(*v, *n) * n.y, 1048576);
        lemma_tdiv_ordered(2 * dot_s(*v, *n) * n.z, 0x180000000, 1048576);
        lemma_tdiv_ordered(-0x180000000, 2 * dot_s(*v, *n) * n.z, 1048576);
        vstd::arithmetic::div_mod::lemma_div_by_multiple(0x1800, 1048576);
        crate::fx::lemma_tdiv_neg(0x180000000, 1048576);
    }
    let d = v.dot_wide(n);
    let rx = (v.x as i128) - tdiv128(2 * d * (n.x as i128), 1048576);
    let ry = (v.y as i128) - tdiv128(2 * d * (n.y as i128), 1048576);
    let rz = (v.z as i128) - tdiv128(2 * d * (n.z as i128), 1048576);
    Vec3 { x: rx as i64, y: ry as i64, z: rz as i64 }
}

/// A normal lying exactly along a coordinate axis at unit length.
pub open spec fn axis_unit_normal(n: Vec3) -> bool {
    ||| (n.y == 0 && n.z == 0 && (n.x == 1024 || n.x == -1024))
    ||| (n.x == 0 && n.z == 0 && (n.y == 1024 || n.y == -1024))
    ||| (n.x == 0 && n.y == 0 && (n.z == 1024 || n.z == -1024))
}

/// Where the normal lies exactly along an axis, the fixed-point mirror
/// reflection is free of truncation: it is an involution, it negates the
/// normal component of the dot product, and it preserves the squared
/// length. For other normals each identity holds only up to the
/// quantization of the two divisions in [`reflect_s`].
pub proof fn lemma_reflect_axis_exact(v: Vec3, n: Vec3)
    requires
        axis_unit_normal(n),
        in_bounds(v, 0x4000),
    ensures
        reflect_s(reflect_s(v, n), n) == v,
        dot_s(reflect_s(v, n), n) == -dot_s(v, n),
        norm2_s(reflect_s(v, n)) == norm2_s(v),
{
    lemma_reflect_axis_once(v, n);
    let w = reflect_s(v, n);
    lemma_reflect_axis_once(w, n);
    assert(norm2_s(w) == norm2_s(v)) by (nonlinear_arith)
        requires
            (w.x == v.x && w.y == v.y && w.z == -v.z) || (w.x == v.x && w.y == -v.y && w.z == v.z)
                || (w.x == -v.x && w.y == v.y && w.z == v.z),
            norm2_s(w) == w.x * w.x + w.y * w.y + w.z * w.z,
            norm2_s(v) == v.x * v.x + v.y * v.y + v.z * v.z,
    {
    }
    assert(dot_s(w, n) == -dot_s(v, n)) by (nonlinear_arith)
        requires
            (n.y == 0 && n.z == 0 && w.x == -v.x && w.y == v.y && w.z == v.z)
                || (n.x == 0 && n.z == 0 && w.x == v.x && w.y == -v.y && w.z == v.z)
                || (n.x == 0 && n.y == 0 && w.x == v.x && w.y == v.y && w.z == -v.z),
            dot_s(w, n) == w.x * n.x + w.y * n.y + w.z * n.z,
            dot_s(v, n) == v.x * n.x + v.y * n.y + v.z * n.z,
    {
    }
}

/// One exact axis-aligned reflection: the axis component is negated, the
/// others pass through.
proof fn lemma_reflect_axis_once(v: Vec3, n: Vec3)
    requires
        axis_unit_normal(n),
        in_bounds(v, 0x8000),
    ensures
        n.y == 0 && n.z == 0 ==> reflect_s(v, n) == (Vec3 { x: (-v.x) as i64, y: v.y, z: v.z }),
        n.x == 0 && n.z == 0 ==> reflect_s(v, n) == (Vec3 { x: v.x, y: (-v.y) as i64, z: v.z }),
        n.x == 0 && n.y == 0 ==> reflect_s(v, n) == (Vec3 { x: v.x, y: v.y, z: (-v.z) as i64 }),
{
    let d = dot_s(v, n);
    vstd::arithmetic::div_mod::lemma_div_of0(1048576);
    if n.y == 0 && n.z == 0 {
        assert(n.x * n.x == 1048576) by (nonlinear_arith)
            requires
                n.x == 1024 || n.x == -1024,
        {
        }
        assert(2 * d * n.x == (2 * v.x) * 1048576 && 2 * d * n.y == 0 && 2 * d * n.z == 0)
            by (nonlinear_arith)
            requires
                d == v.x * n.x + v.y * n.y + v.z * n.z,
                n.y == 0,
                n.z == 0,
                n.x * n.x == 1048576,
        {
        }
        crate::fx::lemma_tdiv_exact_multiple(2 * v.x, 1048576);
    } else if n.x == 0 && n.z == 0 {
        assert(n.y * n.y == 1048576) by (nonlinear_arith)
            requires
                n.y == 1024 || n.y == -1024,
        {
        }
        assert(2 * d * n.y == (2 * v.y) * 1048576 && 2 * d * n.x == 0 && 2 * d * n.z == 0)
            by (nonlinear_arith)
            requires
                d == v.x * n.x + v.y * n.y + v.z * n.z,
                n.x == 0,
                n.z == 0,
                n.y * n.y == 1048576,
        {
        }
        crate::fx::lemma_tdiv_exact_multiple(2 * v.y, 1048576);
    } else {
        assert(n.z * n.z == 1048576) by (nonlinear_arith)
            requires
                n.z == 1024 || n.z == -1024,
        {
        }
        assert(2 * d * n.z == (2 * v.z) * 1048576 && 2 * d * n.x == 0 && 2 * d * n.y == 0)
            by (nonlinear_arith)
            requires
                d == v.x * n.x + v.y * n.y + v.z * n.z,
                n.x == 0,
                n.y == 0,
                n.z * n.z == 1048576,
        {
        }
        crate::fx::lemma_tdiv_exact_multiple(2 * v.z, 1048576);
    }
}

/// Snell refraction of a unit incoming direction about a unit normal with
/// relative index `ratio`: the perpendicular part `ratio (uv + cos n)`
/// plus the parallel part `-sqrt(max(0, 1 - |perp|^2)) n`.
pub open spec fn refract_s(uv: Vec3, n: Vec3, ratio: int) -> Vec3 {
    let cos = crate::fx::imin(tdiv(dot_s(crate::vec3::neg_s(uv), n), 1024), 1024);
    let px = tdiv(ratio * (uv.x + tdiv(cos * n.x, 1024)), 1024) as i64;
    let py = tdiv(ratio * (uv.y + tdiv(cos * n.y, 1024)), 1024) as i64;
    let pz = tdiv(ratio * (uv.z + tdiv(cos * n.z, 1024)), 1024) as i64;
    let perp = Vec3 { x: px, y: py, z: pz };
    let k = crate::fx::sqrt_floor(crate::fx::imax(0, 1048576 - crate::vec3::norm2_s(perp)));
    Vec3 {
        x: (perp.x - tdiv(k * n.x, 1024)) as i64,
        y: (perp.y - tdiv(k * n.y, 1024)) as i64,
        z: (perp.z - tdiv(k * n.z, 1024)) as i64,
    }
}

/// Snell refraction in executable code.
pub fn refract(uv: &Vec3, n: &Vec3, ratio: i64) -> (r: Vec3)
    requires
        in_bounds(*uv, 1024),
        in_bounds(*n, 1024),
        1 <= ratio <= 4096,
    ensures
        r == refract_s(*uv, *n, ratio as int),
        in_bounds(r, 0x100000),
{
    let mdot = uv.neg().dot(n);
    proof {
        assert(mdot as int == (-(uv.x as int)) * (n.x as int) + (-(uv.y as int)) * (n.y as int)
            + (-(uv.z as int)) * (n.z as int));
        assert(-3145728 <= mdot <= 3145728) by (nonlinear_arith)
            requires
                mdot as int == (-(uv.x as int)) * (n.x as int) + (-(uv.y as int)) * (n.y as int)
                    + (-(uv.z as int)) * (n.z as int),
                -1024 <= uv.x <= 1024,
                -1024 <= uv.y <= 1024,
                -1024 <= uv.z <= 1024,
                -1024 <= n.x <= 1024,
                -1024 <= n.y <= 1024,
                -1024 <= n.z <= 1024,
        {
        }
        lemma_tdiv_range(mdot as int, 1024);
        lemma_tdiv_ordered(mdot as int, 3145728, 1024);
        lemma_tdiv_ordered(-3145728, mdot as int, 1024);
        vstd::arithmetic::div_mod::lemma_div_by_multiple(3072, 1024);
        crate::fx::lemma_tdiv_neg(3145728, 1024);
    }
    let cos0 = crate::fx::tdiv64(mdot, 1024);
    let cos = if cos0 <= 1024 { cos0 } else { 1024 };
    proof {
        lemma_mul_bound(cos as int, n.x as int, 0x1000, 1024);
        lemma_mul_bound(cos as int, n.y as int, 0x1000, 1024);
        lemma_mul_bound(cos as int, n.z as int, 0x1000, 1024);
        lemma_tdiv_range(cos as int * n.x as int, 1024);
        lemma_tdiv_range(cos as int * n.y as int, 1024);
        lemma_tdiv_range(cos as int * n.z as int, 1024);
    }
    let ax = uv.x + crate::fx::tdiv64(cos * n.x, 1024);
    let ay = uv.y + crate::fx::tdiv64(cos * n.y, 1024);
    let az = uv.z + crate::fx::tdiv64(cos * n.z, 1024);
    proof {
        lemma_mul_bound(ratio as int, ax as int, 4096, 0x2000);
        lemma_mul_bound(ratio as int, ay as int, 4096, 0x2000);
        lemma_mul_bound(ratio as int, az as int, 4096, 0x2000);
        lemma_tdiv_range(ratio as int * ax as int, 1024);
        lemma_tdiv_range(ratio as int * ay as int, 1024);
        lemma_tdiv_range(ratio as int * az as int, 1024);
    }
    let px = tdiv128(mul_wide(ratio, ax), 1024) as i64;
    let py = tdiv128(mul_wide(ratio, ay), 1024) as i64;
    let pz = tdiv128(mul_wide(ratio, az), 1024) as i64;
    let perp = Vec3 { x: px, y: py, z: pz };
    let n2 = perp.norm2();
    let karg = if 1048576 - n2 >= 0 { 1048576 - n2 } else { 0 };
    proof {
        crate::fx::lemma_sqrt_floor_props(karg as int);
        let kk = crate::fx::sqrt_floor(karg as int);
        assert(kk <= 1024) by (nonlinear_arith)
            requires
                kk >= 0,
                kk * kk <= karg,
                karg <= 1048576,
        {
        }
    }
    let k = crate::fx::isqrt128(karg as i128) as i64;
    proof {
        lemma_mul_bound(k as int, n.x as int, 1024, 1024);
        lemma_mul_bound(k as int, n.y as int, 1024, 1024);
        lemma_mul_bound(k as int, n.z as int, 1024, 1024);
        lemma_tdiv_range(k as int * n.x as int, 1024);
        lemma_tdiv_range(k as int * n.y as int, 1024);
        lemma_tdiv_range(k as int * n.z as int, 1024);
    }
    let rx = perp.x - crate::fx::tdiv64(k * n.x, 1024);
    let ry = perp.y - crate::fx::tdiv64(k * n.y, 1024);
    let rz = perp.z - crate::fx::tdiv64(k * n.z, 1024);
    Vec3 { x: rx, y: ry, z: rz }
}

/// The tag of each material variant.
#[derive(Clone, Copy, Debug, PartialEq, Eq, Structural)]
pub enum MaterialKey {
    Lambertian,
    Metal,
    Dielectric,
    DiffuseLight,
    Isotropic,
}

/// The closed family of materials as a tagged union: the slot named by
/// `key` holds the variant's data.
#[derive(Debug)]
pub struct MaterialStruct {
    pub key: MaterialKey,
    pub lambertian: Option<Lambertian>,
    pub metal: Option<Metal>,
    pub dielectric: Option<Dielectric>,
    pub diffuse_light: Option<DiffuseLight>,
    pub isotropic: Option<Isotropic>,
}

pub open spec fn wf_material(m: MaterialStruct) -> bool {
    match m.key {
        MaterialKey::Lambertian => m.lambertian is Some && lambertian::wf_lambertian(m.lambertian->0),
        MaterialKey::Metal => m.metal is Some && metal::wf_metal(m.metal->0),
        MaterialKey::Dielectric => m.dielectric is Some && dielectric::wf_dielectric(m.dielectric->0),
        MaterialKey::DiffuseLight => m.diffuse_light is Some && diffuse_light::wf_diffuse_light(m.diffuse_light->0),
        MaterialKey::Isotropic => m.isotropic is Some && isotropic::wf_isotropic(m.isotropic->0),
    }
}

/// What a material radiates on its own: only the emissive variant is
/// nonzero.
pub open spec fn emitted_s(m: MaterialStruct, u: int, v: int, p: Point3) -> Color {
    if m.key == MaterialKey::DiffuseLight && m.diffuse_light is Some {
        texture_value_s(m.diffuse_light->0.emit, u, v, p)
    } else {
        Vec3 { x: 0i64, y: 0i64, z: 0i64 }
    }
}

impl MaterialStruct {
    /// An empty holder for the given variant; the builder fills the
    /// matching slot afterwards.
    pub fn new(key: MaterialKey) -> (r: MaterialStruct)
        ensures
            r.key == key,
            r.lambertian is None,
            r.metal is None,
            r.dielectric is None,
            r.diffuse_light is None,
            r.isotropic is None,
    {
        MaterialStruct {
            key,
            lambertian: None,
            metal: None,
            dielectric: None,
            diffuse_light: None,
            isotropic: None,
        }
    }

    /// Ask the material to scatter: it either absorbs the ray (`false`)
    /// or fills `attenuation` and `scattered` and answers `true`. A
    /// scattered ray always starts at the hit point, keeps the incoming
    /// time, stays well formed, and carries a unit-bounded nonnegative
    /// attenuation.
    pub fn scatter(&self, r_in: &Ray, rec: &HitRecord, attenuation: &mut Color, scattered: &mut Ray, rng: &mut RandomSource) -> (res: bool)
        requires
            wf_material(*self),
            scatter_inputs_ok(*r_in, *rec),
        ensures
            self.key == MaterialKey::DiffuseLight ==> !res,
            self.key == MaterialKey::Lambertian ==> res,
            self.key == MaterialKey::Isotropic ==> res,
            self.key == MaterialKey::Dielectric ==> res,
            res ==> final(scattered).origin == rec.p,
            res ==> final(scattered).time == r_in.time,
            res ==> wf_ray(*final(scattered)),
            res ==> in_bounds(*final(attenuation), 1024)
                && final(attenuation).x >= 0 && final(attenuation).y >= 0 && final(attenuation).z >= 0,
            self.key == MaterialKey::Lambertian && res ==> *final(attenuation) == texture_value_s(
                self.lambertian->0.albedo, rec.u as int, rec.v as int, rec.p),
            self.key == MaterialKey::Isotropic && res ==> *final(attenuation) == texture_value_s(
                self.isotropic->0.albedo, rec.u as int, rec.v as int, rec.p),
            self.key == MaterialKey::Metal && res ==> *final(attenuation) == self.metal->0.albedo,
            self.key == MaterialKey::Dielectric ==> *final(attenuation) == (Vec3 { x: 1024i64, y: 1024i64, z: 1024i64 }),
            self.key == MaterialKey::Metal ==> res == (dot_s(final(scattered).direction, rec.normal) > 0),
            self.key == MaterialKey::DiffuseLight ==> *final(attenuation) == *old(attenuation)
                && *final(scattered) == *old(scattered),
            self.key == MaterialKey::Lambertian ==> exists|w: Vec3| in_bounds(w, 1024)
                && 349281 <= crate::vec3::norm2_s(w)
                && final(scattered).direction == crate::vec3::add_s(rec.normal, w),
            self.key == MaterialKey::Metal ==> final(scattered).origin == rec.p
                && final(scattered).time == r_in.time && wf_ray(*final(scattered)),
            self.key == MaterialKey::Metal ==> *final(attenuation) == self.metal->0.albedo,
            self.key == MaterialKey::Metal ==> exists|f: Vec3| in_bounds(f, self.metal->0.fuzz as int)
                && final(scattered).direction == crate::vec3::add_s(
                reflect_s(unit_s(r_in.direction), rec.normal), f),
            self.key == MaterialKey::Dielectric ==> exists|q: int| 0 <= q <= 1024
                && final(scattered).direction == dielectric::dielectric_dir_s(
                self.dielectric->0, *r_in, *rec, q),
            self.key == MaterialKey::Dielectric && dielectric::cannot_refract_s(self.dielectric->0, *r_in, *rec)
                ==> final(scattered).direction == reflect_s(unit_s(r_in.direction), rec.normal),
            self.key == MaterialKey::Isotropic ==> in_bounds(final(scattered).direction, 1024)
                && 1 <= crate::vec3::norm2_s(final(scattered).direction),
    {
        match self.key {
            MaterialKey::Lambertian => self.lambertian.as_ref().unwrap().scatter(r_in, rec, attenuation, scattered, rng),
            MaterialKey::Metal => self.metal.as_ref().unwrap().scatter(r_in, rec, attenuation, scattered, rng),
            MaterialKey::Dielectric => self.dielectric.as_ref().unwrap().scatter(r_in, rec, attenuation, scattered, rng),
            MaterialKey::DiffuseLight => self.diffuse_light.as_ref().unwrap().scatter(r_in, rec, attenuation, scattered, rng),
            MaterialKey::Isotropic => self.isotropic.as_ref().unwrap().scatter(r_in, rec, attenuation, scattered, rng),
        }
    }

    /// The material's own emission at the hit.
    pub fn emitted(&self, u: i64, v: i64, p: &Point3) -> (r: Color)
        requires
            wf_material(*self),
            0 <= u <= 1024,
            0 <= v <= 1024,
            in_bounds(*p, crate::fx::P_MAX as int),
        ensures
            r == emitted_s(*self, u as int, v as int, *p),
            in_bounds(r, crate::fx::COORD_MAX as int),
            r.x >= 0 && r.y >= 0 && r.z >= 0,
    {
        match self.key {
            MaterialKey::DiffuseLight => self.diffuse_light.as_ref().unwrap().emitted(u, v, p),
            _ => Vec3 { x: 0, y: 0, z: 0 },
        }
    }
}

} // verus!
