//! The isotropic phase function of a participating medium.

use vstd::prelude::*;
use crate::ray::{Ray, wf_ray};
use crate::rng::RandomSource;
use crate::vec3::{Vec3, Color, in_bounds, norm2_s};
use crate::hittable::HitRecord;
use crate::texture::{TextureStruct, wf_texture, texture_unit, texture_value_s};
use crate::material::scatter_inputs_ok;

verus! {

/// A uniform phase function: scatters into the unit ball regardless of
/// the incoming direction, attenuating by its albedo.
#[derive(Debug)]
pub struct Isotropic {
    pub albedo: TextureStruct,
}

pub open spec fn wf_isotropic(i: Isotropic) -> bool {
    &&& wf_texture(i.albedo)
    &&& texture_unit(i.albedo)
}

impl Isotropic {
    pub fn new(albedo: TextureStruct) -> (r: Isotropic)
        ensures
            r.albedo == albedo,
    {
        Isotropic { albedo }
    }

    /// Always scatters, uniformly into the unit ball.
    pub fn scatter(&self, r_in: &Ray, rec: &HitRecord, attenuation: &mut Color, scattered: &mut Ray, rng: &mut RandomSource) -> (res: bool)
        requires
            wf_isotropic(*self),
            scatter_inputs_ok(*r_in, *rec),
        ensures
            res,
            final(scattered).origin == rec.p,
            final(scattered).time == r_in.time,
            wf_ray(*final(scattered)),
            in_bounds(final(scattered).direction, 1024),
            1 <= norm2_s(final(scattered).direction),
            *final(attenuation) == texture_value_s(self.albedo, rec.u as int, rec.v as int, rec.p),
            in_bounds(*final(attenuation), 1024),
            final(attenuation).x >= 0 && final(attenuation).y >= 0 && final(attenuation).z >= 0,
    {
        let d = Vec3::rand_unit_sphere(rng);
        *scattered = Ray::new(&rec.p, &d, r_in.time);
        *attenuation = self.albedo.value(rec.u, rec.v, &rec.p);
        true
    }
}

} // verus!
