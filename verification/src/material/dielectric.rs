//! Refractive surfaces: Snell refraction with total internal reflection
//! and Schlick-sampled Fresnel reflection.

use vstd::prelude::*;
use crate::fx::{tdiv, tdiv64, tdiv128, imin, imax, lemma_mul_bound, lemma_tdiv_range, lemma_tdiv_ordered};
use crate::ray::{Ray, wf_ray};
use crate::rng::RandomSource;
use crate::vec3::{Vec3, Color, dot_s, neg_s, unit_s};
use crate::hittable::HitRecord;
use crate::material::{scatter_inputs_ok, reflect, reflect_s, refract, refract_s};

verus! {

/// A clear refractive surface with a single relative index of refraction
/// (in fixed point: 1536 is 1.5).
#[derive(Clone, Debug)]
pub struct Dielectric {
    pub ir: i64,
}

pub open spec fn wf_dielectric(d: Dielectric) -> bool {
    512 <= d.ir <= 4096
}

/// The relative index along the crossing direction: inverted on a
/// front-face hit.
pub open spec fn ratio_s(d: Dielectric, front_face: bool) -> int {
    if front_face {
        tdiv(1048576, d.ir as int)
    } else {
        d.ir as int
    }
}

/// The incidence cosine of the unit incoming direction against the
/// stored normal, capped at one.
pub open spec fn cos_theta_s(r_in: Ray, rec: HitRecord) -> int {
    imin(tdiv(dot_s(neg_s(unit_s(r_in.direction)), rec.normal), 1024), 1024)
}

/// Total internal reflection: the squared Snell criterion
/// `ratio sin(theta) > 1`.
pub open spec fn cannot_refract_s(d: Dielectric, r_in: Ray, rec: HitRecord) -> bool {
    let cos = cos_theta_s(r_in, rec);
    let sin2 = imax(0, 1048576 - cos * cos);
    ratio_s(d, rec.front_face) * ratio_s(d, rec.front_face) * sin2 > 0x10000000000
}

/// The Schlick reflectance approximation in fixed point.
pub open spec fn reflectance_s(cos: int, ratio: int) -> int {
    let r0 = tdiv((1024 - ratio) * 1024, 1024 + ratio);
    let r0sq = tdiv(r0 * r0, 1024);
    let c1 = imax(0, 1024 - cos);
    let p5 = tdiv(c1 * c1 * c1 * c1 * c1, 0x10000000000);
    r0sq + tdiv((1024 - r0sq) * p5, 1024)
}

/// The scattered direction for one uniform reflectance draw `q`.
pub open spec fn dielectric_dir_s(d: Dielectric, r_in: Ray, rec: HitRecord, q: int) -> Vec3 {
    let unit_in = unit_s(r_in.direction);
    let ratio = ratio_s(d, rec.front_face);
    if cannot_refract_s(d, r_in, rec) || reflectance_s(cos_theta_s(r_in, rec), ratio) > q {
        reflect_s(unit_in, rec.normal)
    } else {
        refract_s(unit_in, rec.normal, ratio)
    }
}

impl Dielectric {
    pub fn new(ir: i64) -> (r: Dielectric)
        ensures
            r == (Dielectric { ir }),
    {
        Dielectric { ir }
    }

    /// Always scatters, with white attenuation: refracts by Snell's law
    /// unless total internal reflection or a Schlick-sampled reflectance
    /// decision chooses the mirror direction.
    pub fn scatter(&self, r_in: &Ray, rec: &HitRecord, attenuation: &mut Color, scattered: &mut Ray, rng: &mut RandomSource) -> (res: bool)
        requires
            wf_dielectric(*self),
            scatter_inputs_ok(*r_in, *rec),
        ensures
            res,
            final(scattered).origin == rec.p,
            final(scattered).time == r_in.time,
            wf_ray(*final(scattered)),
            *final(attenuation) == (Vec3 { x: 1024i64, y: 1024i64, z: 1024i64 }),
            exists|q: int| 0 <= q <= 1024 && final(scattered).direction == dielectric_dir_s(*self, *r_in, *rec, q),
            cannot_refract_s(*self, *r_in, *rec) ==> final(scattered).direction == reflect_s(unit_s(r_in.direction), rec.normal),
    {
        *attenuation = Vec3 { x: 1024, y: 1024, z: 1024 };
        let ratio: i64 = if rec.front_face {
            proof {
                lemma_tdiv_range(1048576, self.ir as int);
                vstd::arithmetic::div_mod::lemma_div_is_ordered_by_denominator(1048576, 512, self.ir as int);
                vstd::arithmetic::div_mod::lemma_div_is_ordered_by_denominator(1048576, self.ir as int, 4096);
            }
            tdiv64(1048576, self.ir)
        } else {
            self.ir
        };
        let unit_in = r_in.direction.unit_vector();
        let md = unit_in.neg().dot(&rec.normal);
        proof {
            assert(md as int == (-(unit_in.x as int)) * (rec.normal.x as int)
                + (-(unit_in.y as int)) * (rec.normal.y as int)
                + (-(unit_in.z as int)) * (rec.normal.z as int));
            assert(-3145728 <= md <= 3145728) by (nonlinear_arith)
                requires
                    md as int == (-(unit_in.x as int)) * (rec.normal.x as int)
                        + (-(unit_in.y as int)) * (rec.normal.y as int)
                        + (-(unit_in.z as int)) * (rec.normal.z as int),
                    -1024 <= unit_in.x <= 1024,
                    -1024 <= unit_in.y <= 1024,
                    -1024 <= unit_in.z <= 1024,
                    -1024 <= rec.normal.x <= 1024,
                    -1024 <= rec.normal.y <= 1024,
                    -1024 <= rec.normal.z <= 1024,
            {
            }
            lemma_tdiv_range(md as int, 1024);
            lemma_tdiv_ordered(md as int, 3145728, 1024);
            lemma_tdiv_ordered(-3145728, md as int, 1024);
            vstd::arithmetic::div_mod::lemma_div_by_multiple(3072, 1024);
            crate::fx::lemma_tdiv_neg(3145728, 1024);
        }
        let cos0 = tdiv64(md, 1024);
        let cos = if cos0 <= 1024 { cos0 } else { 1024 };
        proof {
            lemma_mul_bound(cos as int, cos as int, 3072, 3072);
        }
        let sin2_0 = 1048576 - cos * cos;
        let sin2 = if sin2_0 >= 0 { sin2_0 } else { 0 };
        proof {
            lemma_mul_bound(ratio as int, ratio as int, 4096, 4096);
            lemma_mul_bound(ratio as int * ratio as int, sin2 as int, 0x1000000, 0x100000000);
        }
        let crit = crate::fx::mul128(crate::fx::mul128(ratio as i128, ratio as i128), sin2 as i128);
        let cannot_refract = crit > 0x10000000000;
        let q = rng.next_in_range(0, 1024);
        let refl = reflectance(cos, ratio);
        let dir = if cannot_refract || refl > q {
            reflect(&unit_in, &rec.normal)
        } else {
            refract(&unit_in, &rec.normal, ratio)
        };
        *scattered = Ray::new(&rec.p, &dir, r_in.time);
        proof {
            assert(0 <= q <= 1024 && scattered.direction == dielectric_dir_s(*self, *r_in, *rec, q as int));
        }
        true
    }
}

/// The Schlick reflectance in executable code.
fn reflectance(cos: i64, ratio: i64) -> (r: i64)
    requires
        -0x4000 <= cos <= 1024,
        1 <= ratio <= 4096,
    ensures
        r == reflectance_s(cos as int, ratio as int),
{
    proof {
        lemma_mul_bound(1024 - ratio as int, 1024, 4096, 1024);
        lemma_tdiv_range((1024 - ratio as int) * 1024, 1024 + ratio as int);
        let num = (1024 - ratio as int) * 1024;
        if num >= 0 {
            vstd::arithmetic::div_mod::lemma_div_is_ordered_by_denominator(num, 1025, 1024 + ratio as int);
            vstd::arithmetic::div_mod::lemma_div_is_ordered(num, 3145728, 1025);
        } else {
            vstd::arithmetic::div_mod::lemma_div_is_ordered_by_denominator(-num, 1025, 1024 + ratio as int);
            vstd::arithmetic::div_mod::lemma_div_is_ordered(-num, 3145728, 1025);
        }
    }
    let r0 = tdiv64((1024 - ratio) * 1024, 1024 + ratio);
    proof {
        assert(-3070 <= r0 <= 3070);
        lemma_mul_bound(r0 as int, r0 as int, 3070, 3070);
        lemma_tdiv_range(r0 as int * r0 as int, 1024);
        lemma_tdiv_ordered(r0 as int * r0 as int, 9424900, 1024);
        assert(r0 as int * r0 as int >= 0) by (nonlinear_arith)
        {
        }
    }
    let r0sq = tdiv128(crate::fx::mul_wide(r0, r0), 1024) as i64;
    let c1_0 = 1024 - cos;
    let c1 = if c1_0 >= 0 { c1_0 } else { 0 };
    proof {
        assert(0 <= (c1 as int) * (c1 as int) <= 0x40000000) by (nonlinear_arith)
            requires
                0 <= c1 <= 0x5000,
        {
        }
        assert(0 <= (c1 as int) * (c1 as int) * (c1 as int) <= 0x200000000000) by (nonlinear_arith)
            requires
                0 <= c1 <= 0x5000,
        {
        }
        assert(0 <= (c1 as int) * (c1 as int) * (c1 as int) * (c1 as int) <= 0x1000000000000000) by (nonlinear_arith)
            requires
                0 <= c1 <= 0x5000,
        {
        }
        assert(0 <= (c1 as int) * (c1 as int) * (c1 as int) * (c1 as int) * (c1 as int) <= 0x8000000000000000000) by (nonlinear_arith)
            requires
                0 <= c1 <= 0x5000,
        {
        }
        lemma_tdiv_range((c1 as int) * (c1 as int) * (c1 as int) * (c1 as int) * (c1 as int), 0x10000000000);
        lemma_tdiv_ordered((c1 as int) * (c1 as int) * (c1 as int) * (c1 as int) * (c1 as int),
            0x8000000000000000000, 0x10000000000);
    }
    let c = c1 as i128;
    let p5 = tdiv128(c * c * c * c * c, 0x10000000000) as i64;
    proof {
        lemma_mul_bound(1024 - r0sq as int, p5 as int, 0x4000, 0x800000000);
        lemma_tdiv_range((1024 - r0sq as int) * (p5 as int), 1024);
    }
    let tail = tdiv128(crate::fx::mul_wide(1024 - r0sq, p5), 1024) as i64;
    r0sq + tail
}

} // verus!
