//! Spheres: quadratic intersection, root selection and unit-sphere UV
//! mapping.

use vstd::prelude::*;
use crate::fx::{tdiv, tdiv128, sqrt_floor, isqrt128, mul128, lemma_mul_bound, lemma_tdiv_range, lemma_sqrt_floor_props};
use crate::fx::{COORD_MAX, T_MAX, P_MAX};
use crate::ray::{Ray, wf_ray, at_s};
use crate::vec3::{Point3, in_bounds, sub_s, unit_s};
use crate::hittable::{HitRecord, face_s, sphere_uv_s, get_sphere_uv, rec_ok};
use crate::hittable::aabb::AABB;

verus! {

/// A sphere with a fixed center, a positive radius and the index of its
/// material in the scene's material arena.
#[derive(Clone, Debug)]
pub struct Sphere {
    pub center: Point3,
    pub radius: i64,
    pub material: usize,
}

pub open spec fn wf_sphere(s: Sphere) -> bool {
    &&& in_bounds(s.center, 0x400000)
    &&& 1 <= s.radius <= COORD_MAX
}

/// The box from `center - radius` to `center + radius` on every axis.
pub open spec fn sphere_bbox_s(center: Point3, radius: i64) -> AABB {
    AABB {
        min: Point3 {
            x: (center.x - radius) as i64,
            y: (center.y - radius) as i64,
            z: (center.z - radius) as i64,
        },
        max: Point3 {
            x: (center.x + radius) as i64,
            y: (center.y + radius) as i64,
            z: (center.z + radius) as i64,
        },
    }
}

/// The quadratic sphere test against a center and radius: solve
/// `|O + t D - C|^2 = r^2`, preferring the smaller root inside the window
/// `(tmin, tmax]`, falling back to the larger; the hit point must lie in
/// the supported coordinate universe; the outward normal is the unit
/// vector from the center to the hit point.
pub open spec fn sphere_hit_at(center: Point3, radius: i64, material: usize, r: Ray, tmin: int, tmax: int) -> Option<HitRecord> {
    let ocx = r.origin.x - center.x;
    let ocy = r.origin.y - center.y;
    let ocz = r.origin.z - center.z;
    let a = r.direction.x * r.direction.x + r.direction.y * r.direction.y + r.direction.z * r.direction.z;
    let hb = ocx * r.direction.x + ocy * r.direction.y + ocz * r.direction.z;
    let c = ocx * ocx + ocy * ocy + ocz * ocz - radius * radius;
    if a <= 0 {
        None
    } else {
        let disc = hb * hb - a * c;
        if disc < 0 {
            None
        } else {
            let sq = sqrt_floor(disc);
            let t1 = tdiv((-hb - sq) * 1024, a);
            let t2 = tdiv((-hb + sq) * 1024, a);
            let root = if tmin < t1 && t1 <= tmax {
                t1
            } else {
                t2
            };
            if !(tmin < root && root <= tmax) {
                None
            } else {
                let p = at_s(r, root);
                if !in_bounds(p, P_MAX as int) {
                    None
                } else {
                    let outward = unit_s(sub_s(p, center));
                    let fo = face_s(r.direction, outward);
                    let uv = sphere_uv_s(outward);
                    Some(HitRecord {
                        p,
                        normal: fo.1,
                        material: Some(material),
                        t: root as i64,
                        u: uv.0 as i64,
                        v: uv.1 as i64,
                        front_face: fo.0,
                    })
                }
            }
        }
    }
}

pub open spec fn sphere_hit_spec(s: Sphere, r: Ray, tmin: int, tmax: int) -> Option<HitRecord> {
    sphere_hit_at(s.center, s.radius, s.material, r, tmin, tmax)
}

/// The shared quadratic test, used by fixed and moving spheres.
pub fn sphere_hit_exec(center: &Point3, radius: i64, material: usize, r: &Ray, t_min: i64, t_max: i64, rec: &mut HitRecord) -> (res: bool)
    requires
        in_bounds(*center, 0x400000),
        1 <= radius <= COORD_MAX,
        wf_ray(*r),
        -T_MAX <= t_min <= T_MAX,
        -T_MAX <= t_max <= T_MAX,
    ensures
        res == (sphere_hit_at(*center, radius, material, *r, t_min as int, t_max as int) is Some),
        res ==> Some(*final(rec)) == sphere_hit_at(*center, radius, material, *r, t_min as int, t_max as int),
        !res ==> *final(rec) == *old(rec),
        res ==> rec_ok(*final(rec), t_min as int, t_max as int),
        res ==> final(rec).material == Some(material),
{
    let ocx = (r.origin.x as i128) - (center.x as i128);
    let ocy = (r.origin.y as i128) - (center.y as i128);
    let ocz = (r.origin.z as i128) - (center.z as i128);
    let dx = r.direction.x as i128;
    let dy = r.direction.y as i128;
    let dz = r.direction.z as i128;
    proof {
        lemma_mul_bound(dx as int, dx as int, 0x400000, 0x400000);
        lemma_mul_bound(dy as int, dy as int, 0x400000, 0x400000);
        lemma_mul_bound(dz as int, dz as int, 0x400000, 0x400000);
        lemma_mul_bound(ocx as int, dx as int, 0x80000000, 0x400000);
        lemma_mul_bound(ocy as int, dy as int, 0x80000000, 0x400000);
        lemma_mul_bound(ocz as int, dz as int, 0x80000000, 0x400000);
        lemma_mul_bound(ocx as int, ocx as int, 0x80000000, 0x80000000);
        lemma_mul_bound(ocy as int, ocy as int, 0x80000000, 0x80000000);
        lemma_mul_bound(ocz as int, ocz as int, 0x80000000, 0x80000000);
        lemma_mul_bound(radius as int, radius as int, COORD_MAX as int, COORD_MAX as int);
    }
    let a = mul128(dx, dx) + mul128(dy, dy) + mul128(dz, dz);
    let hb = mul128(ocx, dx) + mul128(ocy, dy) + mul128(ocz, dz);
    let c = mul128(ocx, ocx) + mul128(ocy, ocy) + mul128(ocz, ocz) - mul_128_radius(radius);
    if a <= 0 {
        return false;
    }
    proof {
        lemma_mul_bound(hb as int, hb as int, 0x80000000000000, 0x80000000000000);
        lemma_mul_bound(a as int, c as int, 0x400000000000, 0x10000000000000000);
    }
    let disc = mul128(hb, hb) - a * c;
    if disc < 0 {
        return false;
    }
    let sq = isqrt128(disc);
    proof {
        lemma_sqrt_floor_props(disc as int);
        lemma_mul_bound((-hb - sq) as int, 1024, 0x200000000000000, 1024);
        lemma_mul_bound((-hb + sq) as int, 1024, 0x200000000000000, 1024);
        lemma_tdiv_range((-hb as int - sq as int) * 1024, a as int);
        lemma_tdiv_range((-hb as int + sq as int) * 1024, a as int);
    }
    let t1 = tdiv128((-hb - sq) * 1024, a);
    let t2 = tdiv128((-hb + sq) * 1024, a);
    let root = if (t_min as i128) < t1 && t1 <= (t_max as i128) {
        t1
    } else {
        t2
    };
    if !((t_min as i128) < root && root <= t_max as i128) {
        return false;
    }
    let p = r.at(root as i64);
    if p.x < -P_MAX || p.x > P_MAX || p.y < -P_MAX || p.y > P_MAX || p.z < -P_MAX || p.z > P_MAX {
        return false;
    }
    let outward = p.sub(center).unit_vector();
    let uv = get_sphere_uv(&outward);
    let mut nr = HitRecord::new();
    nr.p = p;
    nr.material = Some(material);
    nr.t = root as i64;
    nr.u = uv.0;
    nr.v = uv.1;
    nr.set_front_face(r, &outward);
    *rec = nr;
    true
}

/// `radius * radius` as a wide value.
fn mul_128_radius(radius: i64) -> (r: i128)
    requires
        -COORD_MAX <= radius <= COORD_MAX,
    ensures
        r == radius as int * radius as int,
{
    proof {
        lemma_mul_bound(radius as int, radius as int, COORD_MAX as int, COORD_MAX as int);
    }
    (radius as i128) * (radius as i128)
}

impl Sphere {
    pub fn new(center: &Point3, radius: i64, material: usize) -> (r: Sphere)
        ensures
            r == (Sphere { center: *center, radius, material }),
    {
        Sphere { center: *center, radius, material }
    }

    /// Nearest quadratic intersection within `(t_min, t_max]`.
    pub fn hit(&self, r: &Ray, t_min: i64, t_max: i64, rec: &mut HitRecord) -> (res: bool)
        requires
            wf_sphere(*self),
            wf_ray(*r),
            -T_MAX <= t_min <= T_MAX,
            -T_MAX <= t_max <= T_MAX,
        ensures
            res == (sphere_hit_spec(*self, *r, t_min as int, t_max as int) is Some),
            res ==> Some(*final(rec)) == sphere_hit_spec(*self, *r, t_min as int, t_max as int),
            !res ==> *final(rec) == *old(rec),
            res ==> rec_ok(*final(rec), t_min as int, t_max as int),
            res ==> final(rec).material == Some(self.material),
    {
        sphere_hit_exec(&self.center, self.radius, self.material, r, t_min, t_max, rec)
    }

    /// A sphere is always bounded: its box is `center +- radius`.
    pub fn bounding_box(&self, _time0: i64, _time1: i64, output_box: &mut AABB) -> (res: bool)
        requires
            wf_sphere(*self),
        ensures
            res,
            *final(output_box) == sphere_bbox_s(self.center, self.radius),
    {
        *output_box = AABB {
            min: Point3 { x: self.center.x - self.radius, y: self.center.y - self.radius, z: self.center.z - self.radius },
            max: Point3 { x: self.center.x + self.radius, y: self.center.y + self.radius, z: self.center.z + self.radius },
        };
        true
    }
}

} // verus!
