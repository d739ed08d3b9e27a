//! Diffuse scattering.

use vstd::prelude::*;
use crate::ray::{Ray, wf_ray};
use crate::rng::RandomSource;
use crate::vec3::{Vec3, Color, in_bounds, add_s, norm2_s};
use crate::hittable::HitRecord;
use crate::texture::{TextureStruct, wf_texture, texture_unit, texture_value_s};
use crate::material::scatter_inputs_ok;

verus! {

/// A diffuse surface: scatters toward the normal plus a unit sample, and
/// attenuates by its albedo texture.
#[derive(Debug)]
pub struct Lambertian {
    pub albedo: TextureStruct,
}

pub open spec fn wf_lambertian(l: Lambertian) -> bool {
    &&& wf_texture(l.albedo)
    &&& texture_unit(l.albedo)
}

impl Lambertian {
    pub fn new(albedo: TextureStruct) -> (r: Lambertian)
        ensures
            r.albedo == albedo,
    {
        Lambertian { albedo }
    }

    /// Always scatters: the direction is the surface normal displaced by
    /// a unit-bounded sample, the attenuation is the albedo at the hit.
    pub fn scatter(&self, r_in: &Ray, rec: &HitRecord, attenuation: &mut Color, scattered: &mut Ray, rng: &mut RandomSource) -> (res: bool)
        requires
            wf_lambertian(*self),
            scatter_inputs_ok(*r_in, *rec),
        ensures
            res,
            final(scattered).origin == rec.p,
            final(scattered).time == r_in.time,
            wf_ray(*final(scattered)),
            exists|w: Vec3| in_bounds(w, 1024) && 349281 <= norm2_s(w)
                && final(scattered).direction == add_s(rec.normal, w),
            *final(attenuation) == texture_value_s(self.albedo, rec.u as int, rec.v as int, rec.p),
            in_bounds(*final(attenuation), 1024),
            final(attenuation).x >= 0 && final(attenuation).y >= 0 && final(attenuation).z >= 0,
    {
        let w = Vec3::rand_unit_vector(rng);
        let scatter_direction = rec.normal.add(&w);
        *scattered = Ray::new(&rec.p, &scatter_direction, r_in.time);
        *attenuation = self.albedo.value(rec.u, rec.v, &rec.p);
        proof {
            assert(in_bounds(w, 1024) && 349281 <= norm2_s(w)
                && scattered.direction == add_s(rec.normal, w));
        }
        true
    }
}

} // verus!
