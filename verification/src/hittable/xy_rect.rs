//! Axis-aligned rectangles in a plane of fixed `z`.

use vstd::prelude::*;
use crate::fx::{tdiv, tdiv128, lemma_mul_bound, lemma_tdiv_range, lemma_tdiv_ordered};
use crate::fx::{COORD_MAX, T_MAX, P_MAX};
use crate::ray::{Ray, wf_ray, at_s};
use crate::vec3::{Vec3, Point3, in_bounds};
use crate::hittable::{HitRecord, face_s, rec_ok};
use crate::hittable::aabb::AABB;

verus! {

/// A rectangle `[x0, x1] x [y0, y1]` in the plane `z = k`.
#[derive(Clone, Debug)]
pub struct XYRect {
    pub x0: i64,
    pub x1: i64,
    pub y0: i64,
    pub y1: i64,
    pub k: i64,
    pub material: usize,
}

pub open spec fn wf_xy_rect(s: XYRect) -> bool {
    &&& -COORD_MAX <= s.x0 <= COORD_MAX
    &&& -COORD_MAX <= s.x1 <= COORD_MAX
    &&& -COORD_MAX <= s.y0 <= COORD_MAX
    &&& -COORD_MAX <= s.y1 <= COORD_MAX
    &&& -COORD_MAX <= s.k <= COORD_MAX
}

/// The rectangle's box, padded one fixed-point unit along `z` so the slab
/// test never sees a zero-thickness box.
pub open spec fn xy_rect_bbox_s(s: XYRect) -> AABB {
    AABB {
        min: Point3 { x: s.x0, y: s.y0, z: (s.k - 1) as i64 },
        max: Point3 { x: s.x1, y: s.y1, z: (s.k + 1) as i64 },
    }
}

/// Plane intersection `t = (k - origin.z) / direction.z`, rejected outside
/// `(tmin, tmax]` or outside the rectangle's extent; the outward normal
/// points along +z; a degenerate extent never hits.
pub open spec fn xy_rect_hit_spec(s: XYRect, r: Ray, tmin: int, tmax: int) -> Option<HitRecord> {
    if r.direction.z == 0 || s.x1 <= s.x0 || s.y1 <= s.y0 {
        None
    } else {
        let t = if r.direction.z > 0 {
            tdiv((s.k - r.origin.z) * 1024, r.direction.z as int)
        } else {
            tdiv((r.origin.z - s.k) * 1024, -(r.direction.z as int))
        };
        if !(tmin < t && t <= tmax) {
            None
        } else {
            let p = at_s(r, t);
            if p.x < s.x0 || p.x > s.x1 || p.y < s.y0 || p.y > s.y1 {
                None
            } else if !in_bounds(p, P_MAX as int) {
                None
            } else {
                let u = tdiv((p.x - s.x0) * 1024, s.x1 - s.x0);
                let v = tdiv((p.y - s.y0) * 1024, s.y1 - s.y0);
                let fo = face_s(r.direction, Vec3 { x: 0i64, y: 0i64, z: 1024i64 });
                Some(HitRecord {
                    p,
                    normal: fo.1,
                    material: Some(s.material),
                    t: t as i64,
                    u: u as i64,
                    v: v as i64,
                    front_face: fo.0,
                })
            }
        }
    }
}

impl XYRect {
    pub fn new(x0: i64, x1: i64, y0: i64, y1: i64, k: i64, material: usize) -> (r: XYRect)
        ensures
            r == (XYRect { x0, x1, y0, y1, k, material }),
    {
        XYRect { x0, x1, y0, y1, k, material }
    }

    pub fn hit(&self, r: &Ray, t_min: i64, t_max: i64, rec: &mut HitRecord) -> (res: bool)
        requires
            wf_xy_rect(*self),
            wf_ray(*r),
            -T_MAX <= t_min <= T_MAX,
            -T_MAX <= t_max <= T_MAX,
        ensures
            res == (xy_rect_hit_spec(*self, *r, t_min as int, t_max as int) is Some),
            res ==> Some(*final(rec)) == xy_rect_hit_spec(*self, *r, t_min as int, t_max as int),
            !res ==> *final(rec) == *old(rec),
            res ==> rec_ok(*final(rec), t_min as int, t_max as int),
            res ==> final(rec).material == Some(self.material),
    {
        if r.direction.z == 0 || self.x1 <= self.x0 || self.y1 <= self.y0 {
            return false;
        }
        proof {
            lemma_mul_bound(self.k as int - r.origin.z as int, 1024, 0x80000000, 1024);
            lemma_mul_bound(r.origin.z as int - self.k as int, 1024, 0x80000000, 1024);
            if r.direction.z > 0 {
                lemma_tdiv_range((self.k as int - r.origin.z as int) * 1024, r.direction.z as int);
            } else {
                lemma_tdiv_range((r.origin.z as int - self.k as int) * 1024, -(r.direction.z as int));
            }
        }
        let t: i128;
        if r.direction.z > 0 {
            t = tdiv128(((self.k as i128) - (r.origin.z as i128)) * 1024, r.direction.z as i128);
        } else {
            t = tdiv128(((r.origin.z as i128) - (self.k as i128)) * 1024, -(r.direction.z as i128));
        }
        if !((t_min as i128) < t && t <= (t_max as i128)) {
            return false;
        }
        let p = r.at(t as i64);
        if p.x < self.x0 || p.x > self.x1 || p.y < self.y0 || p.y > self.y1 {
            return false;
        }
        if p.x < -P_MAX || p.x > P_MAX || p.y < -P_MAX || p.y > P_MAX || p.z < -P_MAX || p.z > P_MAX {
            return false;
        }
        proof {
            lemma_mul_bound(p.x as int - self.x0 as int, 1024, 0x40000000, 1024);
            lemma_mul_bound(p.y as int - self.y0 as int, 1024, 0x40000000, 1024);
            lemma_tdiv_range((p.x as int - self.x0 as int) * 1024, self.x1 as int - self.x0 as int);
            lemma_tdiv_range((p.y as int - self.y0 as int) * 1024, self.y1 as int - self.y0 as int);
            lemma_mul_bound(self.x1 as int - self.x0 as int, 1024, 0x4000000, 1024);
            lemma_mul_bound(self.y1 as int - self.y0 as int, 1024, 0x4000000, 1024);
            lemma_tdiv_ordered((p.x as int - self.x0 as int) * 1024, (self.x1 as int - self.x0 as int) * 1024, self.x1 as int - self.x0 as int);
            lemma_tdiv_ordered((p.y as int - self.y0 as int) * 1024, (self.y1 as int - self.y0 as int) * 1024, self.y1 as int - self.y0 as int);
            vstd::arithmetic::div_mod::lemma_div_by_multiple(1024, self.x1 as int - self.x0 as int);
            vstd::arithmetic::div_mod::lemma_div_by_multiple(1024, self.y1 as int - self.y0 as int);
        }
        let u = tdiv128(((p.x as i128) - (self.x0 as i128)) * 1024, (self.x1 as i128) - (self.x0 as i128));
        let v = tdiv128(((p.y as i128) - (self.y0 as i128)) * 1024, (self.y1 as i128) - (self.y0 as i128));
        let outward = Vec3 { x: 0, y: 0, z: 1024 };
        let mut nr = HitRecord::new();
        nr.p = p;
        nr.material = Some(self.material);
        nr.t = t as i64;
        nr.u = u as i64;
        nr.v = v as i64;
        nr.set_front_face(r, &outward);
        *rec = nr;
        true
    }

    /// The padded box around the rectangle.
    pub fn bounding_box(&self, _time0: i64, _time1: i64, output_box: &mut AABB) -> (res: bool)
        requires
            wf_xy_rect(*self),
        ensures
            res,
            *final(output_box) == xy_rect_bbox_s(*self),
    {
        *output_box = AABB {
            min: Point3 { x: self.x0, y: self.y0, z: self.k - 1 },
            max: Point3 { x: self.x1, y: self.y1, z: self.k + 1 },
        };
        true
    }
}

} // verus!
