//! Spheres whose center slides between two keyframes over a shutter
//! interval.

use vstd::prelude::*;
use crate::fx::{tdiv, tdiv128, lemma_mul_bound, lemma_tdiv_range, lemma_tdiv_ordered, lemma_tdiv_neg, COORD_MAX, T_MAX};
use crate::ray::{Ray, wf_ray};
use crate::vec3::{Point3, in_bounds};
use crate::hittable::{HitRecord, rec_ok, surrounding_box, surrounding_box_s};
use crate::hittable::aabb::AABB;
use crate::hittable::sphere::{sphere_hit_at, sphere_hit_exec, sphere_bbox_s};

verus! {

/// A sphere whose center is interpolated linearly between `center0` at
/// `time0` and `center1` at `time1`, the interpolation factor clamped to
/// the shutter interval.
#[derive(Clone, Debug)]
pub struct MovingSphere {
    pub center0: Point3,
    pub center1: Point3,
    pub time0: i64,
    pub time1: i64,
    pub radius: i64,
    pub material: usize,
}

pub open spec fn wf_moving_sphere(s: MovingSphere) -> bool {
    &&& in_bounds(s.center0, COORD_MAX as int)
    &&& in_bounds(s.center1, COORD_MAX as int)
    &&& 1 <= s.radius <= COORD_MAX
    &&& -COORD_MAX <= s.time0 <= COORD_MAX
    &&& -COORD_MAX <= s.time1 <= COORD_MAX
    &&& s.time0 < s.time1
}

/// The clamped interpolation factor in [0, FX_ONE] for a query time.
pub open spec fn ms_factor_s(s: MovingSphere, t: int) -> int {
    let f0 = tdiv((t - s.time0) * 1024, s.time1 - s.time0);
    if f0 < 0 {
        0
    } else if f0 > 1024 {
        1024
    } else {
        f0
    }
}

/// The center at a query time.
pub open spec fn ms_center_s(s: MovingSphere, t: int) -> Point3 {
    let f = ms_factor_s(s, t);
    Point3 {
        x: (s.center0.x + tdiv((s.center1.x - s.center0.x) * f, 1024)) as i64,
        y: (s.center0.y + tdiv((s.center1.y - s.center0.y) * f, 1024)) as i64,
        z: (s.center0.z + tdiv((s.center1.z - s.center0.z) * f, 1024)) as i64,
    }
}

/// A truncated interpolation step stays between the endpoints.
proof fn lemma_lerp_range(c0: int, c1: int, f: int)
    requires
        0 <= f <= 1024,
    ensures
        c1 >= c0 ==> 0 <= tdiv((c1 - c0) * f, 1024) <= c1 - c0,
        c1 < c0 ==> c1 - c0 <= tdiv((c1 - c0) * f, 1024) <= 0,
{
    if c1 >= c0 {
        assert(0 <= (c1 - c0) * f <= (c1 - c0) * 1024) by (nonlinear_arith)
            requires
                0 <= f <= 1024,
                c1 >= c0,
        {
        }
        lemma_tdiv_range((c1 - c0) * f, 1024);
        lemma_tdiv_ordered((c1 - c0) * f, (c1 - c0) * 1024, 1024);
        vstd::arithmetic::div_mod::lemma_div_by_multiple(c1 - c0, 1024);
    } else {
        assert((c1 - c0) * 1024 <= (c1 - c0) * f <= 0) by (nonlinear_arith)
            requires
                0 <= f <= 1024,
                c1 < c0,
        {
        }
        lemma_tdiv_range((c1 - c0) * f, 1024);
        lemma_tdiv_ordered((c1 - c0) * 1024, (c1 - c0) * f, 1024);
        assert(tdiv((c1 - c0) * 1024, 1024) == c1 - c0) by {
            lemma_tdiv_neg((c0 - c1) * 1024, 1024);
            assert((c1 - c0) * 1024 == -((c0 - c1) * 1024)) by (nonlinear_arith);
            vstd::arithmetic::div_mod::lemma_div_by_multiple(c0 - c1, 1024);
        }
    }
}

/// The interpolated center stays between the two keyframe centers.
pub proof fn lemma_ms_center_in_bounds(s: MovingSphere, t: int)
    requires
        wf_moving_sphere(s),
    ensures
        in_bounds(ms_center_s(s, t), COORD_MAX as int),
{
    let f = ms_factor_s(s, t);
    lemma_lerp_range(s.center0.x as int, s.center1.x as int, f);
    lemma_lerp_range(s.center0.y as int, s.center1.y as int, f);
    lemma_lerp_range(s.center0.z as int, s.center1.z as int, f);
}

impl MovingSphere {
    pub fn new(center0: &Point3, center1: &Point3, time0: i64, time1: i64, radius: i64, material: usize) -> (r: MovingSphere)
        ensures
            r == (MovingSphere { center0: *center0, center1: *center1, time0, time1, radius, material }),
    {
        MovingSphere { center0: *center0, center1: *center1, time0, time1, radius, material }
    }

    /// The interpolated center at a query time, clamped to the shutter
    /// interval.
    pub fn center(&self, time: i64) -> (c: Point3)
        requires
            wf_moving_sphere(*self),
            -0x400000 <= time <= 0x400000,
        ensures
            c == ms_center_s(*self, time as int),
            in_bounds(c, COORD_MAX as int),
    {
        proof {
            lemma_mul_bound(time as int - self.time0 as int, 1024, 0x800000, 1024);
            lemma_tdiv_range((time as int - self.time0 as int) * 1024, self.time1 as int - self.time0 as int);
        }
        let f0 = tdiv128(((time as i128) - (self.time0 as i128)) * 1024, (self.time1 as i128) - (self.time0 as i128));
        let f: i64 = if f0 < 0 {
            0
        } else if f0 > 1024 {
            1024
        } else {
            f0 as i64
        };
        proof {
            lemma_lerp_range(self.center0.x as int, self.center1.x as int, f as int);
            lemma_lerp_range(self.center0.y as int, self.center1.y as int, f as int);
            lemma_lerp_range(self.center0.z as int, self.center1.z as int, f as int);
            lemma_mul_bound(self.center1.x as int - self.center0.x as int, f as int, 0x400000, 1024);
            lemma_mul_bound(self.center1.y as int - self.center0.y as int, f as int, 0x400000, 1024);
            lemma_mul_bound(self.center1.z as int - self.center0.z as int, f as int, 0x400000, 1024);
        }
        let cx = (self.center0.x as i128) + tdiv128(((self.center1.x as i128) - (self.center0.x as i128)) * (f as i128), 1024);
        let cy = (self.center0.y as i128) + tdiv128(((self.center1.y as i128) - (self.center0.y as i128)) * (f as i128), 1024);
        let cz = (self.center0.z as i128) + tdiv128(((self.center1.z as i128) - (self.center0.z as i128)) * (f as i128), 1024);
        Point3 { x: cx as i64, y: cy as i64, z: cz as i64 }
    }

    /// The quadratic test against the center at the ray's time.
    pub fn hit(&self, r: &Ray, t_min: i64, t_max: i64, rec: &mut HitRecord) -> (res: bool)
        requires
            wf_moving_sphere(*self),
            wf_ray(*r),
            -T_MAX <= t_min <= T_MAX,
            -T_MAX <= t_max <= T_MAX,
        ensures
            res == (moving_sphere_hit_spec(*self, *r, t_min as int, t_max as int) is Some),
            res ==> Some(*final(rec)) == moving_sphere_hit_spec(*self, *r, t_min as int, t_max as int),
            !res ==> *final(rec) == *old(rec),
            res ==> rec_ok(*final(rec), t_min as int, t_max as int),
            res ==> final(rec).material == Some(self.material),
    {
        let c = self.center(r.time);
        sphere_hit_exec(&c, self.radius, self.material, r, t_min, t_max, rec)
    }

    /// The union of the bounding boxes at the two ends of the interval.
    pub fn bounding_box(&self, time0: i64, time1: i64, output_box: &mut AABB) -> (res: bool)
        requires
            wf_moving_sphere(*self),
            -COORD_MAX <= time0 <= COORD_MAX,
            -COORD_MAX <= time1 <= COORD_MAX,
        ensures
            res,
            *final(output_box) == moving_sphere_bbox_s(*self, time0 as int, time1 as int),
    {
        let c0 = self.center(time0);
        let c1 = self.center(time1);
        let b0 = AABB {
            min: Point3 { x: c0.x - self.radius, y: c0.y - self.radius, z: c0.z - self.radius },
            max: Point3 { x: c0.x + self.radius, y: c0.y + self.radius, z: c0.z + self.radius },
        };
        let b1 = AABB {
            min: Point3 { x: c1.x - self.radius, y: c1.y - self.radius, z: c1.z - self.radius },
            max: Point3 { x: c1.x + self.radius, y: c1.y + self.radius, z: c1.z + self.radius },
        };
        *output_box = surrounding_box(&b0, &b1);
        true
    }
}

/// The sphere test at the interpolated center.
pub open spec fn moving_sphere_hit_spec(s: MovingSphere, r: Ray, tmin: int, tmax: int) -> Option<HitRecord> {
    sphere_hit_at(ms_center_s(s, r.time as int), s.radius, s.material, r, tmin, tmax)
}

/// The union of the boxes at the interval's ends.
pub open spec fn moving_sphere_bbox_s(s: MovingSphere, t0: int, t1: int) -> AABB {
    surrounding_box_s(
        sphere_bbox_s(ms_center_s(s, t0), s.radius),
        sphere_bbox_s(ms_center_s(s, t1), s.radius),
    )
}

} // verus!
