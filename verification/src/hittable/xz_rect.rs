//! Axis-aligned rectangles in a plane of fixed `y`.

use vstd::prelude::*;
use crate::fx::{tdiv, tdiv128, lemma_mul_bound, lemma_tdiv_range, lemma_tdiv_ordered};
use crate::fx::{COORD_MAX, T_MAX, P_MAX};
use crate::ray::{Ray, wf_ray, at_s};
use crate::vec3::{Vec3, Point3, in_bounds};
use crate::hittable::{HitRecord, face_s, rec_ok};
use crate::hittable::aabb::AABB;

verus! {

/// A rectangle `[x0, x1] x [z0, z1]` in the plane `y = k`.
#[derive(Clone, Debug)]
pub struct XZRect {
    pub x0: i64,
    pub x1: i64,
    pub z0: i64,
    pub z1: i64,
    pub k: i64,
    pub material: usize,
}

pub open spec fn wf_xz_rect(s: XZRect) -> bool {
    &&& -COORD_MAX <= s.x0 <= COORD_MAX
    &&& -COORD_MAX <= s.x1 <= COORD_MAX
    &&& -COORD_MAX <= s.z0 <= COORD_MAX
    &&& -COORD_MAX <= s.z1 <= COORD_MAX
    &&& -COORD_MAX <= s.k <= COORD_MAX
}

/// The rectangle's box, padded one fixed-point unit along `y` so the slab
/// test never sees a zero-thickness box.
pub open spec fn xz_rect_bbox_s(s: XZRect) -> AABB {
    AABB {
        min: Point3 { x: s.x0, y: (s.k - 1) as i64, z: s.z0 },
        max: Point3 { x: s.x1, y: (s.k + 1) as i64, z: s.z1 },
    }
}

/// Plane intersection `t = (k - origin.y) / direction.y`, rejected outside
/// `(tmin, tmax]` or outside the rectangle's extent; the outward normal
/// points along +y; a degenerate extent never hits.
pub open spec fn xz_rect_hit_spec(s: XZRect, r: Ray, tmin: int, tmax: int) -> Option<HitRecord> {
    if r.direction.y == 0 || s.x1 <= s.x0 || s.z1 <= s.z0 {
        None
    } else {
        let t = if r.direction.y > 0 {
            tdiv((s.k - r.origin.y) * 1024, r.direction.y as int)
        } else {
            tdiv((r.origin.y - s.k) * 1024, -(r.direction.y as int))
        };
        if !(tmin < t && t <= tmax) {
            None
        } else {
            let p = at_s(r, t);
            if p.x < s.x0 || p.x > s.x1 || p.z < s.z0 || p.z > s.z1 {
                None
            } else if !in_bounds(p, P_MAX as int) {
                None
            } else {
                let u = tdiv((p.x - s.x0) * 1024, s.x1 - s.x0);
                let v = tdiv((p.z - s.z0) * 1024, s.z1 - s.z0);
                let fo = face_s(r.direction, Vec3 { x: 0i64, y: 1024i64, z: 0i64 });
                Some(HitRecord {
                    p,
                    normal: fo.1,
                    material: Some(s.material),
                    t: t as i64,
                    u: u as i64,
                    v: v as i64,
                    front_face: fo.0,
                })
            }
        }
    }
}

impl XZRect {
    pub fn new(x0: i64, x1: i64, z0: i64, z1: i64, k: i64, material: usize) -> (r: XZRect)
        ensures
            r == (XZRect { x0, x1, z0, z1, k, material }),
    {
        XZRect { x0, x1, z0, z1, k, material }
    }

    pub fn hit(&self, r: &Ray, t_min: i64, t_max: i64, rec: &mut HitRecord) -> (res: bool)
        requires
            wf_xz_rect(*self),
            wf_ray(*r),
            -T_MAX <= t_min <= T_MAX,
            -T_MAX <= t_max <= T_MAX,
        ensures
            res == (xz_rect_hit_spec(*self, *r, t_min as int, t_max as int) is Some),
            res ==> Some(*final(rec)) == xz_rect_hit_spec(*self, *r, t_min as int, t_max as int),
            !res ==> *final(rec) == *old(rec),
            res ==> rec_ok(*final(rec), t_min as int, t_max as int),
            res ==> final(rec).material == Some(self.material),
    {
        if r.direction.y == 0 || self.x1 <= self.x0 || self.z1 <= self.z0 {
            return false;
        }
        proof {
            lemma_mul_bound(self.k as int - r.origin.y as int, 1024, 0x80000000, 1024);
            lemma_mul_bound(r.origin.y as int - self.k as int, 1024, 0x80000000, 1024);
            if r.direction.y > 0 {
                lemma_tdiv_range((self.k as int - r.origin.y as int) * 1024, r.direction.y as int);
            } else {
                lemma_tdiv_range((r.origin.y as int - self.k as int) * 1024, -(r.direction.y as int));
            }
        }
        let t: i128;
        if r.direction.y > 0 {
            t = tdiv128(((self.k as i128) - (r.origin.y as i128)) * 1024, r.direction.y as i128);
        } else {
            t = tdiv128(((r.origin.y as i128) - (self.k as i128)) * 1024, -(r.direction.y as i128));
        }
        if !((t_min as i128) < t && t <= (t_max as i128)) {
            return false;
        }
        let p = r.at(t as i64);
        if p.x < self.x0 || p.x > self.x1 || p.z < self.z0 || p.z > self.z1 {
            return false;
        }
        if p.x < -P_MAX || p.x > P_MAX || p.y < -P_MAX || p.y > P_MAX || p.z < -P_MAX || p.z > P_MAX {
            return false;
        }
        proof {
            lemma_mul_bound(p.x as int - self.x0 as int, 1024, 0x40000000, 1024);
            lemma_mul_bound(p.z as int - self.z0 as int, 1024, 0x40000000, 1024);
            lemma_tdiv_range((p.x as int - self.x0 as int) * 1024, self.x1 as int - self.x0 as int);
            lemma_tdiv_range((p.z as int - self.z0 as int) * 1024, self.z1 as int - self.z0 as int);
            lemma_mul_bound(self.x1 as int - self.x0 as int, 1024, 0x4000000, 1024);
            lemma_mul_bound(self.z1 as int - self.z0 as int, 1024, 0x4000000, 1024);
            lemma_tdiv_ordered((p.x as int - self.x0 as int) * 1024, (self.x1 as int - self.x0 as int) * 1024, self.x1 as int - self.x0 as int);
            lemma_tdiv_ordered((p.z as int - self.z0 as int) * 1024, (self.z1 as int - self.z0 as int) * 1024, self.z1 as int - self.z0 as int);
            vstd::arithmetic::div_mod::lemma_div_by_multiple(1024, self.x1 as int - self.x0 as int);
            vstd::arithmetic::div_mod::lemma_div_by_multiple(1024, self.z1 as int - self.z0 as int);
        }
        let u = tdiv128(((p.x as i128) - (self.x0 as i128)) * 1024, (self.x1 as i128) - (self.x0 as i128));
        let v = tdiv128(((p.z as i128) - (self.z0 as i128)) * 1024, (self.z1 as i128) - (self.z0 as i128));
        let outward = Vec3 { x: 0, y: 1024, z: 0 };
        let mut nr = HitRecord::new();
        nr.p = p;
        nr.material = Some(self.material);
        nr.t = t as i64;
        nr.u = u as i64;
        nr.v = v as i64;
        nr.set_front_face(r, &outward);
        *rec = nr;
        true
    }

    /// The padded box around the rectangle.
    pub fn bounding_box(&self, _time0: i64, _time1: i64, output_box: &mut AABB) -> (res: bool)
        requires
            wf_xz_rect(*self),
        ensures
            res,
            *final(output_box) == xz_rect_bbox_s(*self),
    {
        *output_box = AABB {
            min: Point3 { x: self.x0, y: self.k - 1, z: self.z0 },
            max: Point3 { x: self.x1, y: self.k + 1, z: self.z1 },
        };
        true
    }
}

} // verus!
