//! A decorator that rotates a wrapped shape about the z axis.

use vstd::prelude::*;
use crate::fx::{sin_s, cos_s, sin_fx, cos_fx};
use crate::fx::{T_MAX, P_MAX, ORIGIN_MAX, DIR_MAX};
use crate::ray::{Ray, wf_ray};
use crate::rng::RandomSource;
use crate::vec3::{Vec3, Point3, in_bounds, unit_s};
use crate::hittable::{HitRecord, HittableStruct, hit_spec, wf_hittable, no_medium, materials_within, bbox_spec, rec_ok, face_s, lemma_bbox_in_universe};
use crate::hittable::aabb::{AABB, wf_aabb};
use crate::hittable::rotate_x::{rot_fwd_s, rot_back_s, rot_fwd, rot_back, rot_box_extent_s, rot_box_extent};

verus! {

/// A wrapped shape rotated about the z axis: rays are rotated into the
/// child's frame, the hit point and normal rotated back, and the facing
/// re-derived against the rotated ray.
#[derive(Debug)]
pub struct RotateZ {
    pub ptr: Box<HittableStruct>,
    pub sin_theta: i64,
    pub cos_theta: i64,
    pub hasbox: bool,
    pub bbox: AABB,
}

pub open spec fn wf_rotate_z(rx: RotateZ) -> bool
    decreases rx, 0int,
{
    &&& -1024 <= rx.sin_theta <= 1024
    &&& -1024 <= rx.cos_theta <= 1024
    &&& wf_hittable(*rx.ptr)
    &&& wf_aabb(rx.bbox)
}

pub open spec fn rotate_z_no_medium(rx: RotateZ) -> bool
    decreases rx, 0int,
{
    no_medium(*rx.ptr)
}

pub open spec fn rotate_z_materials_within(rx: RotateZ, mlen: int) -> bool
    decreases rx, 0int,
{
    materials_within(*rx.ptr, mlen)
}

/// Query the child with the ray rotated into object space, rotate the hit
/// point and normal back to world space, renormalize the normal and
/// re-derive the facing from the rotated ray, as the frame of the normal
/// demands.
pub open spec fn rotate_z_hit_spec(rx: RotateZ, r: Ray, tmin: int, tmax: int) -> Option<HitRecord>
    decreases rx, 1int,
{
    let c = rx.cos_theta as int;
    let s = rx.sin_theta as int;
    let of = rot_fwd_s(c, s, r.origin.x as int, r.origin.y as int);
    let df = rot_fwd_s(c, s, r.direction.x as int, r.direction.y as int);
    let o2 = Point3 { x: of.0 as i64, y: of.1 as i64, z: r.origin.z };
    let d2 = Vec3 { x: df.0 as i64, y: df.1 as i64, z: r.direction.z };
    if !in_bounds(o2, ORIGIN_MAX as int) || !in_bounds(d2, DIR_MAX as int) {
        None
    } else {
        let rotated = Ray { origin: o2, direction: d2, time: r.time };
        match hit_spec(*rx.ptr, rotated, tmin, tmax) {
            None => None,
            Some(rec) => {
                let pb = rot_back_s(c, s, rec.p.x as int, rec.p.y as int);
                let p2 = Point3 { x: pb.0 as i64, y: pb.1 as i64, z: rec.p.z };
                if !in_bounds(p2, P_MAX as int) {
                    None
                } else {
                    let nb = rot_back_s(c, s, rec.normal.x as int, rec.normal.y as int);
                    let outward = unit_s(Vec3 { x: nb.0 as i64, y: nb.1 as i64, z: rec.normal.z });
                    let fo = face_s(d2, outward);
                    Some(HitRecord { p: p2, normal: fo.1, front_face: fo.0, ..rec })
                }
            },
        }
    }
}

/// The stored box, when the child had one.
pub open spec fn rotate_z_bbox_s(rx: RotateZ) -> Option<AABB> {
    if rx.hasbox {
        Some(rx.bbox)
    } else {
        None
    }
}

/// The world-space box of a rotated child box: x passes through, the
/// (x, y) extents come from the back-rotated corners.
pub open spec fn rotate_z_new_bbox_s(b: AABB, c: int, s: int) -> AABB {
    let e = rot_box_extent_s(c, s, b.min.x as int, b.max.x as int, b.min.y as int, b.max.y as int);
    AABB {
        min: Point3 { x: e.0 as i64, y: e.2 as i64, z: b.min.z },
        max: Point3 { x: e.1 as i64, y: e.3 as i64, z: b.max.z },
    }
}

impl RotateZ {
    /// Wrap a shape rotated by `angle` (fixed-point degrees) about the x
    /// axis, precomputing the rotated bounding box over the unit shutter
    /// interval.
    pub fn new(ptr: HittableStruct, angle: i64) -> (r: RotateZ)
        requires
            wf_hittable(ptr),
            -0x100000 <= angle <= 0x100000,
        ensures
            *r.ptr == ptr,
            r.sin_theta == sin_s(crate::deg2rad_s(angle as int)),
            r.cos_theta == cos_s(crate::deg2rad_s(angle as int)),
            r.hasbox == (bbox_spec(ptr, 0, 1024) is Some),
            r.hasbox ==> Some(r.bbox) == ({
                match bbox_spec(ptr, 0, 1024) {
                    Some(b) => Some(rotate_z_new_bbox_s(b, r.cos_theta as int, r.sin_theta as int)),
                    None => None::<AABB>,
                }
            }),
            wf_rotate_z(r),
    {
        let radians = crate::degrees_to_radians(angle);
        let sin_theta = sin_fx(radians);
        let cos_theta = cos_fx(radians);
        let mut bbox = AABB::new(&Vec3::zero(), &Vec3::zero());
        let hasbox = ptr.bounding_box(0, 1024, &mut bbox);
        proof {
            lemma_bbox_in_universe(ptr, 0, 1024);
        }
        if hasbox {
            let e = rot_box_extent(cos_theta, sin_theta, bbox.min.x, bbox.max.x, bbox.min.y, bbox.max.y);
            let nb = AABB {
                min: Point3 { x: e.0, y: e.2, z: bbox.min.z },
                max: Point3 { x: e.1, y: e.3, z: bbox.max.z },
            };
            RotateZ { ptr: Box::new(ptr), sin_theta, cos_theta, hasbox, bbox: nb }
        } else {
            RotateZ { ptr: Box::new(ptr), sin_theta, cos_theta, hasbox, bbox: AABB::new(&Vec3::zero(), &Vec3::zero()) }
        }
    }

    pub fn hit(&self, r: &Ray, t_min: i64, t_max: i64, rec: &mut HitRecord, rng: &mut RandomSource) -> (res: bool)
        requires
            wf_rotate_z(*self),
            wf_ray(*r),
            -T_MAX <= t_min <= T_MAX,
            -T_MAX <= t_max <= T_MAX,
        ensures
            rotate_z_no_medium(*self) ==> res == (rotate_z_hit_spec(*self, *r, t_min as int, t_max as int) is Some),
            rotate_z_no_medium(*self) && res ==> Some(*final(rec)) == rotate_z_hit_spec(*self, *r, t_min as int, t_max as int),
            !res ==> *final(rec) == *old(rec),
            res ==> rec_ok(*final(rec), t_min as int, t_max as int),
            res ==> final(rec).material is Some,
            res ==> forall|m: int| rotate_z_materials_within(*self, m) ==> final(rec).material->0 < m,
        decreases *self,
    {
        let of = rot_fwd(self.cos_theta, self.sin_theta, r.origin.x, r.origin.y);
        let df = rot_fwd(self.cos_theta, self.sin_theta, r.direction.x, r.direction.y);
        let o2 = Point3 { x: of.0, y: of.1, z: r.origin.z };
        let d2 = Vec3 { x: df.0, y: df.1, z: r.direction.z };
        if o2.x < -ORIGIN_MAX || o2.x > ORIGIN_MAX || o2.y < -ORIGIN_MAX || o2.y > ORIGIN_MAX
            || d2.x < -DIR_MAX || d2.x > DIR_MAX || d2.y < -DIR_MAX || d2.y > DIR_MAX {
            return false;
        }
        let rotated = Ray { origin: o2, direction: d2, time: r.time };
        let mut tmp = *rec;
        if !self.ptr.hit(&rotated, t_min, t_max, &mut tmp, rng) {
            return false;
        }
        let pb = rot_back(self.cos_theta, self.sin_theta, tmp.p.x, tmp.p.y);
        if pb.0 < -P_MAX || pb.0 > P_MAX || pb.1 < -P_MAX || pb.1 > P_MAX
            || tmp.p.z < -P_MAX || tmp.p.z > P_MAX {
            return false;
        }
        let nb = rot_back(self.cos_theta, self.sin_theta, tmp.normal.x, tmp.normal.y);
        let outward = Vec3 { x: nb.0, y: nb.1, z: tmp.normal.z }.unit_vector();
        tmp.p = Point3 { x: pb.0, y: pb.1, z: tmp.p.z };
        tmp.set_front_face(&rotated, &outward);
        proof {
            assert forall|m: int| rotate_z_materials_within(*self, m) implies tmp.material->0 < m by {
                assert(materials_within(*self.ptr, m));
            }
        }
        *rec = tmp;
        true
    }

    pub fn bounding_box(&self, _time0: i64, _time1: i64, output_box: &mut AABB) -> (res: bool)
        requires
            wf_rotate_z(*self),
        ensures
            res == (rotate_z_bbox_s(*self) is Some),
            res ==> Some(*final(output_box)) == rotate_z_bbox_s(*self),
            !res ==> *final(output_box) == *old(output_box),
    {
        if self.hasbox {
            *output_box = self.bbox;
        }
        self.hasbox
    }
}

} // verus!
