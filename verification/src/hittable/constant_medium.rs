//! Participating media: a boundary shape filled with a uniform scattering
//! volume.

use vstd::prelude::*;
use crate::fx::{tdiv, tdiv128, sqrt_floor, isqrt128, neg_ln_s, neg_ln_fx, imax, imin, lemma_mul_bound, lemma_tdiv_range, lemma_neg_ln_range, lemma_sqrt_floor_props};
use crate::fx::{COORD_MAX, T_MAX, P_MAX};
use crate::ray::{Ray, wf_ray, at_s};
use crate::rng::RandomSource;
use crate::vec3::{Vec3, in_bounds, norm2_s};
use crate::hittable::{HitRecord, HittableStruct, hit_spec, wf_hittable, no_medium, materials_within, bbox_spec, rec_ok};
use crate::hittable::aabb::AABB;

verus! {

/// A volume bounded by a wrapped shape: a ray entering the boundary
/// scatters after an exponentially sampled free flight, or passes through
/// when the sampled flight outruns the chord.
#[derive(Debug)]
pub struct ConstantMedium {
    pub boundary: Box<HittableStruct>,
    pub phase_function: usize,
    pub density: i64,
}

pub open spec fn wf_medium(m: ConstantMedium) -> bool
    decreases m, 0int,
{
    &&& wf_hittable(*m.boundary)
    &&& 1 <= m.density <= COORD_MAX
}

pub open spec fn medium_materials_within(m: ConstantMedium, mlen: int) -> bool
    decreases m, 0int,
{
    &&& materials_within(*m.boundary, mlen)
    &&& m.phase_function < mlen
}

/// The medium's interaction for one uniform draw `u` in [1, FX_ONE]:
/// find the entry against the unbounded window and the exit just past it;
/// clamp both to the caller's window; sample the free flight
/// `-ln(u/FX_ONE) / density` and compare it with the chord length; a
/// scattering event reports an arbitrary fixed normal, front facing, and
/// the medium's phase-function material.
pub open spec fn medium_hit_given(m: ConstantMedium, r: Ray, tmin: int, tmax: int, u: int) -> Option<HitRecord>
    decreases m, 1int,
{
    match hit_spec(*m.boundary, r, -T_MAX as int, T_MAX as int - 1) {
        None => None,
        Some(rec1) => match hit_spec(*m.boundary, r, rec1.t + 1, T_MAX as int) {
            None => None,
            Some(rec2) => {
                let t1 = imax(rec1.t as int, tmin);
                let t2 = imin(rec2.t as int, tmax);
                if t1 >= t2 {
                    None
                } else {
                    let dlen = sqrt_floor(norm2_s(r.direction));
                    if dlen == 0 {
                        None
                    } else {
                        let inside = tdiv((t2 - t1) * dlen, 1024);
                        let hd = tdiv(neg_ln_s(u) * 1024, m.density as int);
                        if hd > inside {
                            None
                        } else {
                            let t = t1 + tdiv(hd * 1024, dlen);
                            if t <= tmin || t > tmax {
                                None
                            } else {
                                let p = at_s(r, t);
                                if !in_bounds(p, P_MAX as int) {
                                    None
                                } else {
                                    Some(HitRecord {
                                        p,
                                        normal: Vec3 { x: 1024i64, y: 0i64, z: 0i64 },
                                        material: Some(m.phase_function),
                                        t: t as i64,
                                        u: 0i64,
                                        v: 0i64,
                                        front_face: true,
                                    })
                                }
                            }
                        }
                    }
                }
            },
        },
    }
}

impl ConstantMedium {
    pub fn new(boundary: HittableStruct, density: i64, phase_function: usize) -> (r: ConstantMedium)
        ensures
            *r.boundary == boundary,
            r.density == density,
            r.phase_function == phase_function,
    {
        ConstantMedium { boundary: Box::new(boundary), phase_function, density }
    }

    /// Sample one interaction of the ray with the volume. The outcome
    /// follows [`medium_hit_given`] for the uniform draw consumed here.
    #[verifier::rlimit(100)]
    pub fn hit(&self, r: &Ray, t_min: i64, t_max: i64, rec: &mut HitRecord, rng: &mut RandomSource) -> (res: bool)
        requires
            wf_medium(*self),
            wf_ray(*r),
            -T_MAX <= t_min <= T_MAX,
            -T_MAX <= t_max <= T_MAX,
        ensures
            no_medium(*self.boundary) ==> exists|u: int|
                1 <= u <= 1024 && res == (medium_hit_given(*self, *r, t_min as int, t_max as int, u) is Some)
                    && (res ==> Some(*final(rec)) == medium_hit_given(*self, *r, t_min as int, t_max as int, u)),
            !res ==> *final(rec) == *old(rec),
            res ==> rec_ok(*final(rec), t_min as int, t_max as int),
            res ==> final(rec).material is Some,
            res ==> forall|m: int| medium_materials_within(*self, m) ==> final(rec).material->0 < m,
        decreases *self,
    {
        let u = rng.next_in_range(1, 1024);
        let ghost det = no_medium(*self.boundary);
        let mut rec1 = HitRecord::new();
        let mut rec2 = HitRecord::new();
        if !self.boundary.hit(r, -T_MAX, T_MAX - 1, &mut rec1, rng) {
            proof {
                if det {
                    assert(medium_hit_given(*self, *r, t_min as int, t_max as int, u as int) is None);
                }
            }
            return false;
        }
        if !self.boundary.hit(r, rec1.t + 1, T_MAX, &mut rec2, rng) {
            proof {
                if det {
                    assert(medium_hit_given(*self, *r, t_min as int, t_max as int, u as int) is None);
                }
            }
            return false;
        }
        let t1 = if rec1.t >= t_min { rec1.t } else { t_min };
        let t2 = if rec2.t <= t_max { rec2.t } else { t_max };
        if t1 >= t2 {
            return false;
        }
        let n2 = r.direction.norm2();
        proof {
            assert(n2 <= 0x300000000000) by (nonlinear_arith)
                requires
                    n2 == r.direction.x * r.direction.x + r.direction.y * r.direction.y + r.direction.z * r.direction.z,
                    -0x400000 <= r.direction.x <= 0x400000,
                    -0x400000 <= r.direction.y <= 0x400000,
                    -0x400000 <= r.direction.z <= 0x400000,
            {
            }
        }
        let dlen128 = isqrt128(n2 as i128);
        proof {
            lemma_sqrt_floor_props(n2 as int);
            assert(dlen128 * dlen128 <= n2);
            assert(dlen128 <= 0x1000000) by (nonlinear_arith)
                requires
                    0 <= dlen128,
                    dlen128 * dlen128 <= n2,
                    n2 <= 0x300000000000,
            {
            }
        }
        let dlen = dlen128 as i64;
        if dlen == 0 {
            return false;
        }
        proof {
            lemma_mul_bound((t2 - t1) as int, dlen as int, 0x20000000000, 0x1000000);
            lemma_tdiv_range(((t2 - t1) as int) * (dlen as int), 1024);
            lemma_neg_ln_range(u as int);
        }
        let inside = tdiv128(((t2 as i128) - (t1 as i128)) * (dlen as i128), 1024);
        let nl = neg_ln_fx(u);
        proof {
            lemma_tdiv_range(nl as int * 1024, self.density as int);
        }
        let hd = tdiv128((nl as i128) * 1024, self.density as i128);
        if hd > inside {
            return false;
        }
        proof {
            lemma_mul_bound(hd as int, 1024, 0x100000000000000, 1024);
            lemma_tdiv_range(hd as int * 1024, dlen as int);
        }
        let t = (t1 as i128) + tdiv128(hd * 1024, dlen as i128);
        if t <= t_min as i128 || t > t_max as i128 {
            return false;
        }
        let p = r.at(t as i64);
        if p.x < -P_MAX || p.x > P_MAX || p.y < -P_MAX || p.y > P_MAX || p.z < -P_MAX || p.z > P_MAX {
            return false;
        }
        let mut nr = HitRecord::new();
        nr.p = p;
        nr.normal = Vec3 { x: 1024, y: 0, z: 0 };
        nr.material = Some(self.phase_function);
        nr.t = t as i64;
        nr.front_face = true;
        *rec = nr;
        true
    }

    /// The boundary's box.
    pub fn bounding_box(&self, time0: i64, time1: i64, output_box: &mut AABB) -> (res: bool)
        requires
            wf_medium(*self),
            -COORD_MAX <= time0 <= COORD_MAX,
            -COORD_MAX <= time1 <= COORD_MAX,
        ensures
            res == (bbox_spec(*self.boundary, time0 as int, time1 as int) is Some),
            res ==> Some(*final(output_box)) == bbox_spec(*self.boundary, time0 as int, time1 as int),
            !res ==> *final(output_box) == *old(output_box),
        decreases *self,
    {
        self.boundary.bounding_box(time0, time1, output_box)
    }
}

} // verus!
