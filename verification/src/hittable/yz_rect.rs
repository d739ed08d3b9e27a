//! Axis-aligned rectangles in a plane of fixed `x`.

use vstd::prelude::*;
use crate::fx::{tdiv, tdiv128, lemma_mul_bound, lemma_tdiv_range, lemma_tdiv_ordered};
use crate::fx::{COORD_MAX, T_MAX, P_MAX};
use crate::ray::{Ray, wf_ray, at_s};
use crate::vec3::{Vec3, Point3, in_bounds};
use crate::hittable::{HitRecord, face_s, rec_ok};
use crate::hittable::aabb::AABB;

verus! {

/// A rectangle `[z0, z1] x [z0, z1]` in the plane `x = k`.
#[derive(Clone, Debug)]
pub struct YZRect {
    pub y0: i64,
    pub y1: i64,
    pub z0: i64,
    pub z1: i64,
    pub k: i64,
    pub material: usize,
}

pub open spec fn wf_yz_rect(s: YZRect) -> bool {
    &&& -COORD_MAX <= s.y0 <= COORD_MAX
    &&& -COORD_MAX <= s.y1 <= COORD_MAX
    &&& -COORD_MAX <= s.z0 <= COORD_MAX
    &&& -COORD_MAX <= s.z1 <= COORD_MAX
    &&& -COORD_MAX <= s.k <= COORD_MAX
}

/// The rectangle's box, padded one fixed-point unit along `x` so the slab
/// test never sees a zero-thickness box.
pub open spec fn yz_rect_bbox_s(s: YZRect) -> AABB {
    AABB {
        min: Point3 { x: (s.k - 1) as i64, y: s.y0, z: s.z0 },
        max: Point3 { x: (s.k + 1) as i64, y: s.y1, z: s.z1 },
    }
}

/// Plane intersection `t = (k - origin.x) / direction.x`, rejected outside
/// `(tmin, tmax]` or outside the rectangle's extent; the outward normal
/// points along +x; a degenerate extent never hits.
pub open spec fn yz_rect_hit_spec(s: YZRect, r: Ray, tmin: int, tmax: int) -> Option<HitRecord> {
    if r.direction.x == 0 || s.y1 <= s.y0 || s.z1 <= s.z0 {
        None
    } else {
        let t = if r.direction.x > 0 {
            tdiv((s.k - r.origin.x) * 1024, r.direction.x as int)
        } else {
            tdiv((r.origin.x - s.k) * 1024, -(r.direction.x as int))
        };
        if !(tmin < t && t <= tmax) {
            None
        } else {
            let p = at_s(r, t);
            if p.y < s.y0 || p.y > s.y1 || p.z < s.z0 || p.z > s.z1 {
                None
            } else if !in_bounds(p, P_MAX as int) {
                None
            } else {
                let u = tdiv((p.y - s.y0) * 1024, s.y1 - s.y0);
                let v = tdiv((p.z - s.z0) * 1024, s.z1 - s.z0);
                let fo = face_s(r.direction, Vec3 { x: 1024i64, y: 0i64, z: 0i64 });
                Some(HitRecord {
                    p,
                    normal: fo.1,
                    material: Some(s.material),
                    t: t as i64,
                    u: u as i64,
                    v: v as i64,
                    front_face: fo.0,
                })
            }
        }
    }
}

impl YZRect {
    pub fn new(y0: i64, y1: i64, z0: i64, z1: i64, k: i64, material: usize) -> (r: YZRect)
        ensures
            r == (YZRect { y0, y1, z0, z1, k, material }),
    {
        YZRect { y0, y1, z0, z1, k, material }
    }

    pub fn hit(&self, r: &Ray, t_min: i64, t_max: i64, rec: &mut HitRecord) -> (res: bool)
        requires
            wf_yz_rect(*self),
            wf_ray(*r),
            -T_MAX <= t_min <= T_MAX,
            -T_MAX <= t_max <= T_MAX,
        ensures
            res == (yz_rect_hit_spec(*self, *r, t_min as int, t_max as int) is Some),
            res ==> Some(*final(rec)) == yz_rect_hit_spec(*self, *r, t_min as int, t_max as int),
            !res ==> *final(rec) == *old(rec),
            res ==> rec_ok(*final(rec), t_min as int, t_max as int),
            res ==> final(rec).material == Some(self.material),
    {
        if r.direction.x == 0 || self.y1 <= self.y0 || self.z1 <= self.z0 {
            return false;
        }
        proof {
            lemma_mul_bound(self.k as int - r.origin.x as int, 1024, 0x80000000, 1024);
            lemma_mul_bound(r.origin.x as int - self.k as int, 1024, 0x80000000, 1024);
            if r.direction.x > 0 {
                lemma_tdiv_range((self.k as int - r.origin.x as int) * 1024, r.direction.x as int);
            } else {
                lemma_tdiv_range((r.origin.x as int - self.k as int) * 1024, -(r.direction.x as int));
            }
        }
        let t: i128;
        if r.direction.x > 0 {
            t = tdiv128(((self.k as i128) - (r.origin.x as i128)) * 1024, r.direction.x as i128);
        } else {
            t = tdiv128(((r.origin.x as i128) - (self.k as i128)) * 1024, -(r.direction.x as i128));
        }
        if !((t_min as i128) < t && t <= (t_max as i128)) {
            return false;
        }
        let p = r.at(t as i64);
        if p.y < self.y0 || p.y > self.y1 || p.z < self.z0 || p.z > self.z1 {
            return false;
        }
        if p.x < -P_MAX || p.x > P_MAX || p.y < -P_MAX || p.y > P_MAX || p.z < -P_MAX || p.z > P_MAX {
            return false;
        }
        proof {
            lemma_mul_bound(p.y as int - self.y0 as int, 1024, 0x40000000, 1024);
            lemma_mul_bound(p.z as int - self.z0 as int, 1024, 0x40000000, 1024);
            lemma_tdiv_range((p.y as int - self.y0 as int) * 1024, self.y1 as int - self.y0 as int);
            lemma_tdiv_range((p.z as int - self.z0 as int) * 1024, self.z1 as int - self.z0 as int);
            lemma_mul_bound(self.y1 as int - self.y0 as int, 1024, 0x4000000, 1024);
            lemma_mul_bound(self.z1 as int - self.z0 as int, 1024, 0x4000000, 1024);
            lemma_tdiv_ordered((p.y as int - self.y0 as int) * 1024, (self.y1 as int - self.y0 as int) * 1024, self.y1 as int - self.y0 as int);
            lemma_tdiv_ordered((p.z as int - self.z0 as int) * 1024, (self.z1 as int - self.z0 as int) * 1024, self.z1 as int - self.z0 as int);
            vstd::arithmetic::div_mod::lemma_div_by_multiple(1024, self.y1 as int - self.y0 as int);
            vstd::arithmetic::div_mod::lemma_div_by_multiple(1024, self.z1 as int - self.z0 as int);
        }
        let u = tdiv128(((p.y as i128) - (self.y0 as i128)) * 1024, (self.y1 as i128) - (self.y0 as i128));
        let v = tdiv128(((p.z as i128) - (self.z0 as i128)) * 1024, (self.z1 as i128) - (self.z0 as i128));
        let outward = Vec3 { x: 1024, y: 0, z: 0 };
        let mut nr = HitRecord::new();
        nr.p = p;
        nr.material = Some(self.material);
        nr.t = t as i64;
        nr.u = u as i64;
        nr.v = v as i64;
        nr.set_front_face(r, &outward);
        *rec = nr;
        true
    }

    /// The padded box around the rectangle.
    pub fn bounding_box(&self, _time0: i64, _time1: i64, output_box: &mut AABB) -> (res: bool)
        requires
            wf_yz_rect(*self),
        ensures
            res,
            *final(output_box) == yz_rect_bbox_s(*self),
    {
        *output_box = AABB {
            min: Point3 { x: self.k - 1, y: self.y0, z: self.z0 },
            max: Point3 { x: self.k + 1, y: self.y1, z: self.z1 },
        };
        true
    }
}

} // verus!
