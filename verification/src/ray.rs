//! Rays: the queries the whole engine answers.

use vstd::prelude::*;
use crate::fx::{tdiv, tdiv128, mul_wide, lemma_mul_bound, lemma_tdiv_range};
use crate::vec3::Color;
use crate::fx::{T_MAX, DIR_MAX, ORIGIN_MAX, COORD_MAX};
use crate::vec3::{Vec3, Point3, in_bounds};

verus! {

/// A ray with an origin, an (unnormalized) direction and the shutter time
/// at which it samples time-dependent geometry.
#[derive(Clone, Copy, Debug, PartialEq, Eq, Structural)]
pub struct Ray {
    pub origin: Point3,
    pub direction: Vec3,
    pub time: i64,
}

/// The rays the engine accepts: origin within the supported universe,
/// direction and time within scene bounds.
pub open spec fn wf_ray(r: Ray) -> bool {
    &&& in_bounds(r.origin, ORIGIN_MAX as int)
    &&& in_bounds(r.direction, DIR_MAX as int)
    &&& -COORD_MAX <= r.time <= COORD_MAX
}

/// The point the ray reaches at parameter `t`:
/// `origin + t * direction / FX_ONE` componentwise, truncated.
pub open spec fn at_s(r: Ray, t: int) -> Point3 {
    Point3 {
        x: (r.origin.x + tdiv(t * r.direction.x, 1024)) as i64,
        y: (r.origin.y + tdiv(t * r.direction.y, 1024)) as i64,
        z: (r.origin.z + tdiv(t * r.direction.z, 1024)) as i64,
    }
}

impl Ray {
    pub fn new(origin: &Point3, direction: &Vec3, time: i64) -> (r: Ray)
        ensures
            r == (Ray { origin: *origin, direction: *direction, time }),
    {
        Ray { origin: *origin, direction: *direction, time }
    }

    /// Where the ray is at parameter `t`.
    pub fn at(&self, t: i64) -> (p: Point3)
        requires
            wf_ray(*self),
            -T_MAX <= t <= T_MAX,
        ensures
            p == at_s(*self, t as int),
            in_bounds(p, 0x20000000000000),
    {
        proof {
            lemma_mul_bound(t as int, self.direction.x as int, T_MAX as int, DIR_MAX as int);
            lemma_mul_bound(t as int, self.direction.y as int, T_MAX as int, DIR_MAX as int);
            lemma_mul_bound(t as int, self.direction.z as int, T_MAX as int, DIR_MAX as int);
            lemma_tdiv_range(t as int * self.direction.x as int, 1024);
            lemma_tdiv_range(t as int * self.direction.y as int, 1024);
            lemma_tdiv_range(t as int * self.direction.z as int, 1024);
        }
        let px = self.origin.x + (tdiv128(mul_wide(t, self.direction.x), 1024) as i64);
        let py = self.origin.y + (tdiv128(mul_wide(t, self.direction.y), 1024) as i64);
        let pz = self.origin.z + (tdiv128(mul_wide(t, self.direction.z), 1024) as i64);
        Point3 { x: px, y: py, z: pz }
    }
}

impl Ray {
    /// The radiance arriving along this ray: black once the bounce budget
    /// is exhausted, the background on a miss, and otherwise the hit
    /// material's emission plus its attenuated recursive scatter.
    pub fn color(&self, background: &crate::vec3::Color, world: &crate::hittable::HittableStruct,
        materials: &Vec<crate::material::MaterialStruct>, depth: i32, rng: &mut crate::rng::RandomSource) -> (r: crate::vec3::Color)
        requires
            wf_ray(*self),
            crate::hittable::wf_hittable(*world),
            crate::hittable::materials_within(*world, materials@.len() as int),
            forall|i: int| 0 <= i < materials@.len() ==> crate::material::wf_material(#[trigger] materials@[i]),
            depth <= 1000,
            in_bounds(*background, COORD_MAX as int),
            background.x >= 0 && background.y >= 0 && background.z >= 0,
        ensures
            depth <= 0 ==> r == (Vec3 { x: 0i64, y: 0i64, z: 0i64 }),
            depth > 0 && crate::hittable::no_medium(*world)
                && crate::hittable::hit_spec(*world, *self, 1, T_MAX as int) is None ==> r == *background,
            depth > 0 && crate::hittable::no_medium(*world)
                && (crate::hittable::hit_spec(*world, *self, 1, T_MAX as int) matches Some(rec)
                    && materials@[rec.material->0 as int].key == crate::material::MaterialKey::DiffuseLight)
                ==> r == crate::material::emitted_s(materials@[crate::hittable::hit_spec(*world, *self, 1,
                    T_MAX as int)->0.material->0 as int],
                    crate::hittable::hit_spec(*world, *self, 1, T_MAX as int)->0.u as int,
                    crate::hittable::hit_spec(*world, *self, 1, T_MAX as int)->0.v as int,
                    crate::hittable::hit_spec(*world, *self, 1, T_MAX as int)->0.p),
            r.x >= 0 && r.y >= 0 && r.z >= 0,
            r.x <= crate::fx::imax(depth as int, 0) * COORD_MAX,
            r.y <= crate::fx::imax(depth as int, 0) * COORD_MAX,
            r.z <= crate::fx::imax(depth as int, 0) * COORD_MAX,
        decreases depth,
    {
        if depth <= 0 {
            return Vec3 { x: 0, y: 0, z: 0 };
        }
        let mut rec = crate::hittable::HitRecord::new();
        if !world.hit(self, 1, T_MAX, &mut rec, rng) {
            proof {
                assert(1 * COORD_MAX <= crate::fx::imax(depth as int, 0) * COORD_MAX) by (nonlinear_arith)
                    requires
                        depth >= 1,
                {
                }
            }
            return *background;
        }
        let idx = rec.material.unwrap();
        proof {
            assert(crate::hittable::materials_within(*world, materials@.len() as int));
        }
        let mat = &materials[idx];
        let emitted = mat.emitted(rec.u, rec.v, &rec.p);
        let mut attenuation = Vec3 { x: 0, y: 0, z: 0 };
        let mut scattered = Ray { origin: Vec3 { x: 0, y: 0, z: 0 }, direction: Vec3 { x: 0, y: 0, z: 1024 }, time: 0 };
        if !mat.scatter(self, &rec, &mut attenuation, &mut scattered, rng) {
            proof {
                assert(1 * COORD_MAX <= crate::fx::imax(depth as int, 0) * COORD_MAX) by (nonlinear_arith)
                    requires
                        depth >= 1,
                {
                }
            }
            return emitted;
        }
        let rec_color = scattered.color(background, world, materials, depth - 1, rng);
        proof {
            let b = crate::fx::imax(depth as int - 1, 0) * COORD_MAX;
            assert(0 <= attenuation.x * rec_color.x <= 1024 * b
                && 0 <= attenuation.y * rec_color.y <= 1024 * b
                && 0 <= attenuation.z * rec_color.z <= 1024 * b) by (nonlinear_arith)
                requires
                    0 <= attenuation.x <= 1024,
                    0 <= attenuation.y <= 1024,
                    0 <= attenuation.z <= 1024,
                    0 <= rec_color.x <= b,
                    0 <= rec_color.y <= b,
                    0 <= rec_color.z <= b,
                    0 <= b,
            {
            }
            lemma_tdiv_range(attenuation.x as int * rec_color.x as int, 1024);
            lemma_tdiv_range(attenuation.y as int * rec_color.y as int, 1024);
            lemma_tdiv_range(attenuation.z as int * rec_color.z as int, 1024);
            crate::fx::lemma_tdiv_ordered(attenuation.x as int * rec_color.x as int, 1024 * b, 1024);
            crate::fx::lemma_tdiv_ordered(attenuation.y as int * rec_color.y as int, 1024 * b, 1024);
            crate::fx::lemma_tdiv_ordered(attenuation.z as int * rec_color.z as int, 1024 * b, 1024);
            assert(1024 * b == b * 1024) by (nonlinear_arith)
            {
            }
            vstd::arithmetic::div_mod::lemma_div_by_multiple(b, 1024);
            assert(COORD_MAX + b <= crate::fx::imax(depth as int, 0) * COORD_MAX) by (nonlinear_arith)
                requires
                    depth >= 1,
                    b == crate::fx::imax(depth as int - 1, 0) * COORD_MAX,
            {
            }
        }
        let cx = emitted.x + (tdiv128(mul_wide(attenuation.x, rec_color.x), 1024) as i64);
        let cy = emitted.y + (tdiv128(mul_wide(attenuation.y, rec_color.y), 1024) as i64);
        let cz = emitted.z + (tdiv128(mul_wide(attenuation.z, rec_color.z), 1024) as i64);
        Vec3 { x: cx, y: cy, z: cz }
    }
}

} // verus!
