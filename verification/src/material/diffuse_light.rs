//! Emissive surfaces.

use vstd::prelude::*;
use crate::ray::Ray;
use crate::rng::RandomSource;
use crate::vec3::{Color, Point3, in_bounds};
use crate::hittable::HitRecord;
use crate::texture::{TextureStruct, wf_texture, texture_value_s, lemma_texture_value_bounds};

verus! {

/// A light source: never scatters, radiates its texture's value.
#[derive(Debug)]
pub struct DiffuseLight {
    pub emit: TextureStruct,
}

pub open spec fn wf_diffuse_light(d: DiffuseLight) -> bool {
    wf_texture(d.emit)
}

impl DiffuseLight {
    pub fn new(emit: TextureStruct) -> (r: DiffuseLight)
        ensures
            r.emit == emit,
    {
        DiffuseLight { emit }
    }

    /// Declines to scatter: the integrator keeps only the emission.
    pub fn scatter(&self, _r_in: &Ray, _rec: &HitRecord, _attenuation: &mut Color, _scattered: &mut Ray, _rng: &mut RandomSource) -> (res: bool)
        ensures
            !res,
            *final(_attenuation) == *old(_attenuation),
            *final(_scattered) == *old(_scattered),
    {
        false
    }

    /// The emitted radiance at the hit.
    pub fn emitted(&self, u: i64, v: i64, p: &Point3) -> (r: Color)
        requires
            wf_diffuse_light(*self),
            0 <= u <= 1024,
            0 <= v <= 1024,
            in_bounds(*p, crate::fx::P_MAX as int),
        ensures
            r == texture_value_s(self.emit, u as int, v as int, *p),
            in_bounds(r, crate::fx::COORD_MAX as int),
            r.x >= 0 && r.y >= 0 && r.z >= 0,
    {
        proof {
            lemma_texture_value_bounds(self.emit, u as int, v as int, *p);
        }
        self.emit.value(u, v, p)
    }
}

} // verus!
