//! A decorator that rotates a wrapped shape about the x axis.

use vstd::prelude::*;
use crate::fx::{tdiv, tdiv128, sin_s, cos_s, sin_fx, cos_fx, imin, imax, lemma_mul_bound, lemma_tdiv_range};
use crate::fx::{T_MAX, P_MAX, ORIGIN_MAX, DIR_MAX, BOX_LIM};
use crate::ray::{Ray, wf_ray};
use crate::rng::RandomSource;
use crate::vec3::{Vec3, Point3, in_bounds, unit_s};
use crate::hittable::{HitRecord, HittableStruct, hit_spec, wf_hittable, no_medium, materials_within, bbox_spec, rec_ok, face_s, lemma_bbox_in_universe};
use crate::hittable::aabb::{AABB, wf_aabb};

verus! {

/// Rotate the pair `(a, b)` from world into object space:
/// `(cos a + sin b, -sin a + cos b) / FX_ONE`.
pub open spec fn rot_fwd_s(c: int, s: int, a: int, b: int) -> (int, int) {
    (tdiv(c * a + s * b, 1024), tdiv(c * b - s * a, 1024))
}

/// Rotate the pair `(a, b)` from object back into world space:
/// `(cos a - sin b, sin a + cos b) / FX_ONE`.
pub open spec fn rot_back_s(c: int, s: int, a: int, b: int) -> (int, int) {
    (tdiv(c * a - s * b, 1024), tdiv(s * a + c * b, 1024))
}

/// Rotating a pair of bounded values keeps each result within 2 lim.
pub proof fn lemma_rot_bounds(c: int, s: int, a: int, b: int, lim: int)
    requires
        -1024 <= c <= 1024,
        -1024 <= s <= 1024,
        -lim <= a <= lim,
        -lim <= b <= lim,
        0 <= lim,
    ensures
        -2 * lim <= rot_fwd_s(c, s, a, b).0 <= 2 * lim,
        -2 * lim <= rot_fwd_s(c, s, a, b).1 <= 2 * lim,
        -2 * lim <= rot_back_s(c, s, a, b).0 <= 2 * lim,
        -2 * lim <= rot_back_s(c, s, a, b).1 <= 2 * lim,
{
    lemma_mul_bound(c, a, 1024, lim);
    lemma_mul_bound(s, b, 1024, lim);
    lemma_mul_bound(s, a, 1024, lim);
    lemma_mul_bound(c, b, 1024, lim);
    crate::fx::lemma_tdiv_range(c * a + s * b, 1024);
    crate::fx::lemma_tdiv_range(c * b - s * a, 1024);
    crate::fx::lemma_tdiv_range(c * a - s * b, 1024);
    crate::fx::lemma_tdiv_range(s * a + c * b, 1024);
    crate::fx::lemma_tdiv_ordered(c * a + s * b, 2048 * lim, 1024);
    crate::fx::lemma_tdiv_ordered(-(2048 * lim), c * a + s * b, 1024);
    crate::fx::lemma_tdiv_ordered(c * b - s * a, 2048 * lim, 1024);
    crate::fx::lemma_tdiv_ordered(-(2048 * lim), c * b - s * a, 1024);
    crate::fx::lemma_tdiv_ordered(c * a - s * b, 2048 * lim, 1024);
    crate::fx::lemma_tdiv_ordered(-(2048 * lim), c * a - s * b, 1024);
    crate::fx::lemma_tdiv_ordered(s * a + c * b, 2048 * lim, 1024);
    crate::fx::lemma_tdiv_ordered(-(2048 * lim), s * a + c * b, 1024);
    assert(tdiv(2048 * lim, 1024) == 2 * lim && tdiv(-(2048 * lim), 1024) == -(2 * lim)) by {
        crate::fx::lemma_tdiv_neg(2048 * lim, 1024);
        assert(2048 * lim == (2 * lim) * 1024) by (nonlinear_arith);
        vstd::arithmetic::div_mod::lemma_div_by_multiple(2 * lim, 1024);
    }
}

/// Rotate the pair `(a, b)` forward in executable code.
pub fn rot_fwd(c: i64, s: i64, a: i64, b: i64) -> (r: (i64, i64))
    requires
        -1024 <= c <= 1024,
        -1024 <= s <= 1024,
        -0x40000000 <= a <= 0x40000000,
        -0x40000000 <= b <= 0x40000000,
    ensures
        (r.0 as int, r.1 as int) == rot_fwd_s(c as int, s as int, a as int, b as int),
        -0x80000000 <= r.0 <= 0x80000000,
        -0x80000000 <= r.1 <= 0x80000000,
{
    proof {
        lemma_rot_bounds(c as int, s as int, a as int, b as int, 0x40000000);
        lemma_mul_bound(c as int, a as int, 1024, 0x40000000);
        lemma_mul_bound(s as int, b as int, 1024, 0x40000000);
        lemma_mul_bound(s as int, a as int, 1024, 0x40000000);
        lemma_mul_bound(c as int, b as int, 1024, 0x40000000);
    }
    let p0 = tdiv128((c as i128) * (a as i128) + (s as i128) * (b as i128), 1024);
    let p1 = tdiv128((c as i128) * (b as i128) - (s as i128) * (a as i128), 1024);
    (p0 as i64, p1 as i64)
}

/// Rotate the pair `(a, b)` back in executable code.
pub fn rot_back(c: i64, s: i64, a: i64, b: i64) -> (r: (i64, i64))
    requires
        -1024 <= c <= 1024,
        -1024 <= s <= 1024,
        -0x40000000 <= a <= 0x40000000,
        -0x40000000 <= b <= 0x40000000,
    ensures
        (r.0 as int, r.1 as int) == rot_back_s(c as int, s as int, a as int, b as int),
        -0x80000000 <= r.0 <= 0x80000000,
        -0x80000000 <= r.1 <= 0x80000000,
{
    proof {
        lemma_rot_bounds(c as int, s as int, a as int, b as int, 0x40000000);
        lemma_mul_bound(c as int, a as int, 1024, 0x40000000);
        lemma_mul_bound(s as int, b as int, 1024, 0x40000000);
        lemma_mul_bound(s as int, a as int, 1024, 0x40000000);
        lemma_mul_bound(c as int, b as int, 1024, 0x40000000);
    }
    let p0 = tdiv128((c as i128) * (a as i128) - (s as i128) * (b as i128), 1024);
    let p1 = tdiv128((s as i128) * (a as i128) + (c as i128) * (b as i128), 1024);
    (p0 as i64, p1 as i64)
}

/// Clamp a scalar to the box universe.
pub open spec fn box_clamp_s(v: int) -> int {
    if v < -0x4000000 {
        -0x4000000
    } else if v > 0x4000000 {
        0x4000000
    } else {
        v
    }
}

pub fn box_clamp(v: i64) -> (r: i64)
    ensures
        r as int == box_clamp_s(v as int),
        -BOX_LIM <= r <= BOX_LIM,
{
    if v < -0x4000000 {
        -0x4000000
    } else if v > 0x4000000 {
        0x4000000
    } else {
        v
    }
}

/// The least and greatest back-rotated first coordinates over the four
/// corner combinations of a pair of intervals.
pub open spec fn rot_corners_min_s(c: int, s: int, a0: int, a1: int, b0: int, b1: int) -> int {
    imin(
        imin(rot_back_s(c, s, a0, b0).0, rot_back_s(c, s, a0, b1).0),
        imin(rot_back_s(c, s, a1, b0).0, rot_back_s(c, s, a1, b1).0),
    )
}

pub open spec fn rot_corners_max_s(c: int, s: int, a0: int, a1: int, b0: int, b1: int) -> int {
    imax(
        imax(rot_back_s(c, s, a0, b0).0, rot_back_s(c, s, a0, b1).0),
        imax(rot_back_s(c, s, a1, b0).0, rot_back_s(c, s, a1, b1).0),
    )
}

pub open spec fn rot_corners_min2_s(c: int, s: int, a0: int, a1: int, b0: int, b1: int) -> int {
    imin(
        imin(rot_back_s(c, s, a0, b0).1, rot_back_s(c, s, a0, b1).1),
        imin(rot_back_s(c, s, a1, b0).1, rot_back_s(c, s, a1, b1).1),
    )
}

pub open spec fn rot_corners_max2_s(c: int, s: int, a0: int, a1: int, b0: int, b1: int) -> int {
    imax(
        imax(rot_back_s(c, s, a0, b0).1, rot_back_s(c, s, a0, b1).1),
        imax(rot_back_s(c, s, a1, b0).1, rot_back_s(c, s, a1, b1).1),
    )
}

/// The back-rotated corner extents of the pair of intervals
/// `[a0, a1] x [b0, b1]`, clamped to the box universe:
/// `(min_a, max_a, min_b, max_b)`.
pub open spec fn rot_box_extent_s(c: int, s: int, a0: int, a1: int, b0: int, b1: int) -> (int, int, int, int) {
    (
        box_clamp_s(rot_corners_min_s(c, s, a0, a1, b0, b1)),
        box_clamp_s(rot_corners_max_s(c, s, a0, a1, b0, b1)),
        box_clamp_s(rot_corners_min2_s(c, s, a0, a1, b0, b1)),
        box_clamp_s(rot_corners_max2_s(c, s, a0, a1, b0, b1)),
    )
}

/// The rotated extents of a pair of intervals in executable code.
pub fn rot_box_extent(c: i64, s: i64, a0: i64, a1: i64, b0: i64, b1: i64) -> (r: (i64, i64, i64, i64))
    requires
        -1024 <= c <= 1024,
        -1024 <= s <= 1024,
        -BOX_LIM <= a0 <= BOX_LIM,
        -BOX_LIM <= a1 <= BOX_LIM,
        -BOX_LIM <= b0 <= BOX_LIM,
        -BOX_LIM <= b1 <= BOX_LIM,
    ensures
        (r.0 as int, r.1 as int, r.2 as int, r.3 as int) == rot_box_extent_s(c as int, s as int, a0 as int, a1 as int, b0 as int, b1 as int),
        -BOX_LIM <= r.0 <= BOX_LIM,
        -BOX_LIM <= r.1 <= BOX_LIM,
        -BOX_LIM <= r.2 <= BOX_LIM,
        -BOX_LIM <= r.3 <= BOX_LIM,
{
    let t00 = rot_back(c, s, a0, b0);
    let t01 = rot_back(c, s, a0, b1);
    let t10 = rot_back(c, s, a1, b0);
    let t11 = rot_back(c, s, a1, b1);
    let mna = if t00.0 <= t01.0 { t00.0 } else { t01.0 };
    let mna = if mna <= t10.0 { mna } else { t10.0 };
    let mna2 = if t10.0 <= t11.0 { t10.0 } else { t11.0 };
    let lo_a = if (if t00.0 <= t01.0 { t00.0 } else { t01.0 }) <= mna2 { if t00.0 <= t01.0 { t00.0 } else { t01.0 } } else { mna2 };
    let hia2 = if t10.0 >= t11.0 { t10.0 } else { t11.0 };
    let hi_a = if (if t00.0 >= t01.0 { t00.0 } else { t01.0 }) >= hia2 { if t00.0 >= t01.0 { t00.0 } else { t01.0 } } else { hia2 };
    let lob2 = if t10.1 <= t11.1 { t10.1 } else { t11.1 };
    let lo_b = if (if t00.1 <= t01.1 { t00.1 } else { t01.1 }) <= lob2 { if t00.1 <= t01.1 { t00.1 } else { t01.1 } } else { lob2 };
    let hib2 = if t10.1 >= t11.1 { t10.1 } else { t11.1 };
    let hi_b = if (if t00.1 >= t01.1 { t00.1 } else { t01.1 }) >= hib2 { if t00.1 >= t01.1 { t00.1 } else { t01.1 } } else { hib2 };
    (box_clamp(lo_a), box_clamp(hi_a), box_clamp(lo_b), box_clamp(hi_b))
}

/// A wrapped shape rotated about the x axis: rays are rotated into the
/// child's frame, the hit point and normal rotated back, and the facing
/// re-derived against the rotated ray.
#[derive(Debug)]
pub struct RotateX {
    pub ptr: Box<HittableStruct>,
    pub sin_theta: i64,
    pub cos_theta: i64,
    pub hasbox: bool,
    pub bbox: AABB,
}

pub open spec fn wf_rotate_x(rx: RotateX) -> bool
    decreases rx, 0int,
{
    &&& -1024 <= rx.sin_theta <= 1024
    &&& -1024 <= rx.cos_theta <= 1024
    &&& wf_hittable(*rx.ptr)
    &&& wf_aabb(rx.bbox)
}

pub open spec fn rotate_x_no_medium(rx: RotateX) -> bool
    decreases rx, 0int,
{
    no_medium(*rx.ptr)
}

pub open spec fn rotate_x_materials_within(rx: RotateX, mlen: int) -> bool
    decreases rx, 0int,
{
    materials_within(*rx.ptr, mlen)
}

/// Query the child with the ray rotated into object space, rotate the hit
/// point and normal back to world space, renormalize the normal and
/// re-derive the facing from the rotated ray, as the frame of the normal
/// demands.
pub open spec fn rotate_x_hit_spec(rx: RotateX, r: Ray, tmin: int, tmax: int) -> Option<HitRecord>
    decreases rx, 1int,
{
    let c = rx.cos_theta as int;
    let s = rx.sin_theta as int;
    let of = rot_fwd_s(c, s, r.origin.y as int, r.origin.z as int);
    let df = rot_fwd_s(c, s, r.direction.y as int, r.direction.z as int);
    let o2 = Point3 { x: r.origin.x, y: of.0 as i64, z: of.1 as i64 };
    let d2 = Vec3 { x: r.direction.x, y: df.0 as i64, z: df.1 as i64 };
    if !in_bounds(o2, ORIGIN_MAX as int) || !in_bounds(d2, DIR_MAX as int) {
        None
    } else {
        let rotated = Ray { origin: o2, direction: d2, time: r.time };
        match hit_spec(*rx.ptr, rotated, tmin, tmax) {
            None => None,
            Some(rec) => {
                let pb = rot_back_s(c, s, rec.p.y as int, rec.p.z as int);
                let p2 = Point3 { x: rec.p.x, y: pb.0 as i64, z: pb.1 as i64 };
                if !in_bounds(p2, P_MAX as int) {
                    None
                } else {
                    let nb = rot_back_s(c, s, rec.normal.y as int, rec.normal.z as int);
                    let outward = unit_s(Vec3 { x: rec.normal.x, y: nb.0 as i64, z: nb.1 as i64 });
                    let fo = face_s(d2, outward);
                    Some(HitRecord { p: p2, normal: fo.1, front_face: fo.0, ..rec })
                }
            },
        }
    }
}

/// The stored box, when the child had one.
pub open spec fn rotate_x_bbox_s(rx: RotateX) -> Option<AABB> {
    if rx.hasbox {
        Some(rx.bbox)
    } else {
        None
    }
}

/// The world-space box of a rotated child box: x passes through, the
/// (y, z) extents come from the back-rotated corners.
pub open spec fn rotate_x_new_bbox_s(b: AABB, c: int, s: int) -> AABB {
    let e = rot_box_extent_s(c, s, b.min.y as int, b.max.y as int, b.min.z as int, b.max.z as int);
    AABB {
        min: Point3 { x: b.min.x, y: e.0 as i64, z: e.2 as i64 },
        max: Point3 { x: b.max.x, y: e.1 as i64, z: e.3 as i64 },
    }
}

impl RotateX {
    /// Wrap a shape rotated by `angle` (fixed-point degrees) about the x
    /// axis, precomputing the rotated bounding box over the unit shutter
    /// interval.
    pub fn new(ptr: HittableStruct, angle: i64) -> (r: RotateX)
        requires
            wf_hittable(ptr),
            -0x100000 <= angle <= 0x100000,
        ensures
            *r.ptr == ptr,
            r.sin_theta == sin_s(crate::deg2rad_s(angle as int)),
            r.cos_theta == cos_s(crate::deg2rad_s(angle as int)),
            r.hasbox == (bbox_spec(ptr, 0, 1024) is Some),
            r.hasbox ==> Some(r.bbox) == ({
                match bbox_spec(ptr, 0, 1024) {
                    Some(b) => Some(rotate_x_new_bbox_s(b, r.cos_theta as int, r.sin_theta as int)),
                    None => None::<AABB>,
                }
            }),
            wf_rotate_x(r),
    {
        let radians = crate::degrees_to_radians(angle);
        let sin_theta = sin_fx(radians);
        let cos_theta = cos_fx(radians);
        let mut bbox = AABB::new(&Vec3::zero(), &Vec3::zero());
        let hasbox = ptr.bounding_box(0, 1024, &mut bbox);
        proof {
            lemma_bbox_in_universe(ptr, 0, 1024);
        }
        if hasbox {
            let e = rot_box_extent(cos_theta, sin_theta, bbox.min.y, bbox.max.y, bbox.min.z, bbox.max.z);
            let nb = AABB {
                min: Point3 { x: bbox.min.x, y: e.0, z: e.2 },
                max: Point3 { x: bbox.max.x, y: e.1, z: e.3 },
            };
            RotateX { ptr: Box::new(ptr), sin_theta, cos_theta, hasbox, bbox: nb }
        } else {
            RotateX { ptr: Box::new(ptr), sin_theta, cos_theta, hasbox, bbox: AABB::new(&Vec3::zero(), &Vec3::zero()) }
        }
    }

    pub fn hit(&self, r: &Ray, t_min: i64, t_max: i64, rec: &mut HitRecord, rng: &mut RandomSource) -> (res: bool)
        requires
            wf_rotate_x(*self),
            wf_ray(*r),
            -T_MAX <= t_min <= T_MAX,
            -T_MAX <= t_max <= T_MAX,
        ensures
            rotate_x_no_medium(*self) ==> res == (rotate_x_hit_spec(*self, *r, t_min as int, t_max as int) is Some),
            rotate_x_no_medium(*self) && res ==> Some(*final(rec)) == rotate_x_hit_spec(*self, *r, t_min as int, t_max as int),
            !res ==> *final(rec) == *old(rec),
            res ==> rec_ok(*final(rec), t_min as int, t_max as int),
            res ==> final(rec).material is Some,
            res ==> forall|m: int| rotate_x_materials_within(*self, m) ==> final(rec).material->0 < m,
        decreases *self,
    {
        let of = rot_fwd(self.cos_theta, self.sin_theta, r.origin.y, r.origin.z);
        let df = rot_fwd(self.cos_theta, self.sin_theta, r.direction.y, r.direction.z);
        let o2 = Point3 { x: r.origin.x, y: of.0, z: of.1 };
        let d2 = Vec3 { x: r.direction.x, y: df.0, z: df.1 };
        if o2.y < -ORIGIN_MAX || o2.y > ORIGIN_MAX || o2.z < -ORIGIN_MAX || o2.z > ORIGIN_MAX
            || d2.y < -DIR_MAX || d2.y > DIR_MAX || d2.z < -DIR_MAX || d2.z > DIR_MAX {
            return false;
        }
        let rotated = Ray { origin: o2, direction: d2, time: r.time };
        let mut tmp = *rec;
        if !self.ptr.hit(&rotated, t_min, t_max, &mut tmp, rng) {
            return false;
        }
        let pb = rot_back(self.cos_theta, self.sin_theta, tmp.p.y, tmp.p.z);
        if pb.0 < -P_MAX || pb.0 > P_MAX || pb.1 < -P_MAX || pb.1 > P_MAX
            || tmp.p.x < -P_MAX || tmp.p.x > P_MAX {
            return false;
        }
        let nb = rot_back(self.cos_theta, self.sin_theta, tmp.normal.y, tmp.normal.z);
        let outward = Vec3 { x: tmp.normal.x, y: nb.0, z: nb.1 }.unit_vector();
        tmp.p = Point3 { x: tmp.p.x, y: pb.0, z: pb.1 };
        tmp.set_front_face(&rotated, &outward);
        proof {
            assert forall|m: int| rotate_x_materials_within(*self, m) implies tmp.material->0 < m by {
                assert(materials_within(*self.ptr, m));
            }
        }
        *rec = tmp;
        true
    }

    pub fn bounding_box(&self, _time0: i64, _time1: i64, output_box: &mut AABB) -> (res: bool)
        requires
            wf_rotate_x(*self),
        ensures
            res == (rotate_x_bbox_s(*self) is Some),
            res ==> Some(*final(output_box)) == rotate_x_bbox_s(*self),
            !res ==> *final(output_box) == *old(output_box),
    {
        if self.hasbox {
            *output_box = self.bbox;
        }
        self.hasbox
    }
}

} // verus!
