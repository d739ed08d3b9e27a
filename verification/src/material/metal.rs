//! Specular reflection with an optional fuzz.

use vstd::prelude::*;
use crate::fx::{lemma_mul_bound, lemma_tdiv_range};
use crate::ray::{Ray, wf_ray};
use crate::rng::RandomSource;
use crate::vec3::{Vec3, Color, in_bounds, add_s, dot_s, unit_s};
use crate::hittable::HitRecord;
use crate::material::{scatter_inputs_ok, reflect, reflect_s};

verus! {

/// A mirror with a fuzz radius: reflects the incoming direction about the
/// normal, perturbed by a fuzz-scaled unit-ball sample, and absorbs rays
/// whose perturbed reflection would point into the surface.
#[derive(Clone, Debug)]
pub struct Metal {
    pub albedo: Color,
    pub fuzz: i64,
}

pub open spec fn wf_metal(m: Metal) -> bool {
    &&& in_bounds(m.albedo, 1024)
    &&& m.albedo.x >= 0
    &&& m.albedo.y >= 0
    &&& m.albedo.z >= 0
    &&& 0 <= m.fuzz <= 1024
}

impl Metal {
    pub fn new(albedo: &Color, fuzz: i64) -> (r: Metal)
        ensures
            r == (Metal { albedo: *albedo, fuzz }),
    {
        Metal { albedo: *albedo, fuzz }
    }

    /// Reflect and perturb; succeed exactly when the result leaves the
    /// surface.
    pub fn scatter(&self, r_in: &Ray, rec: &HitRecord, attenuation: &mut Color, scattered: &mut Ray, rng: &mut RandomSource) -> (res: bool)
        requires
            wf_metal(*self),
            scatter_inputs_ok(*r_in, *rec),
        ensures
            final(scattered).origin == rec.p,
            final(scattered).time == r_in.time,
            wf_ray(*final(scattered)),
            exists|f: Vec3| in_bounds(f, self.fuzz as int) && final(scattered).direction == add_s(
                reflect_s(unit_s(r_in.direction), rec.normal), f),
            *final(attenuation) == self.albedo,
            res == (dot_s(final(scattered).direction, rec.normal) > 0),
    {
        let unit_in = r_in.direction.unit_vector();
        let reflected = reflect(&unit_in, &rec.normal);
        let s = Vec3::rand_unit_sphere(rng);
        proof {
            lemma_mul_bound(s.x as int, self.fuzz as int, 1024, 1024);
            lemma_mul_bound(s.y as int, self.fuzz as int, 1024, 1024);
            lemma_mul_bound(s.z as int, self.fuzz as int, 1024, 1024);
            lemma_tdiv_range(s.x as int * self.fuzz as int, 1024);
            lemma_tdiv_range(s.y as int * self.fuzz as int, 1024);
            lemma_tdiv_range(s.z as int * self.fuzz as int, 1024);
            assert(-(1024 * self.fuzz as int) <= s.x as int * self.fuzz as int <= 1024 * self.fuzz as int
                && -(1024 * self.fuzz as int) <= s.y as int * self.fuzz as int <= 1024 * self.fuzz as int
                && -(1024 * self.fuzz as int) <= s.z as int * self.fuzz as int <= 1024 * self.fuzz as int)
                by (nonlinear_arith)
                requires
                    -1024 <= s.x <= 1024,
                    -1024 <= s.y <= 1024,
                    -1024 <= s.z <= 1024,
                    0 <= self.fuzz,
            {
            }
            crate::fx::lemma_tdiv_ordered(s.x as int * self.fuzz as int, 1024 * self.fuzz as int, 1024);
            crate::fx::lemma_tdiv_ordered(-(1024 * self.fuzz as int), s.x as int * self.fuzz as int, 1024);
            crate::fx::lemma_tdiv_ordered(s.y as int * self.fuzz as int, 1024 * self.fuzz as int, 1024);
            crate::fx::lemma_tdiv_ordered(-(1024 * self.fuzz as int), s.y as int * self.fuzz as int, 1024);
            crate::fx::lemma_tdiv_ordered(s.z as int * self.fuzz as int, 1024 * self.fuzz as int, 1024);
            crate::fx::lemma_tdiv_ordered(-(1024 * self.fuzz as int), s.z as int * self.fuzz as int, 1024);
            assert(1024 * self.fuzz as int == self.fuzz as int * 1024) by (nonlinear_arith)
            {
            }
            vstd::arithmetic::div_mod::lemma_div_by_multiple(self.fuzz as int, 1024);
            crate::fx::lemma_tdiv_neg(self.fuzz as int * 1024, 1024);
        }
        let fx_ = crate::fx::tdiv64(s.x * self.fuzz, 1024);
        let fy_ = crate::fx::tdiv64(s.y * self.fuzz, 1024);
        let fz_ = crate::fx::tdiv64(s.z * self.fuzz, 1024);
        let fv = Vec3 { x: fx_, y: fy_, z: fz_ };
        let dir = reflected.add(&fv);
        *scattered = Ray::new(&rec.p, &dir, r_in.time);
        *attenuation = self.albedo;
        proof {
            assert(in_bounds(fv, self.fuzz as int) && scattered.direction == add_s(
                reflect_s(unit_s(r_in.direction), rec.normal), fv));
        }
        let d = dir.dot(&rec.normal);
        d > 0
    }
}

} // verus!
