//! Axis-aligned boxes built from six rectangle faces.

use vstd::prelude::*;
use crate::fx::{COORD_MAX, T_MAX};
use crate::ray::{Ray, wf_ray};
use crate::rng::RandomSource;
use crate::vec3::{Point3, in_bounds};
use crate::hittable::{HitRecord, HittableStruct, HittableKey, rec_ok};
use crate::hittable::hittable_list::{HittableList, wf_list, list_no_medium, list_materials_within, list_hit_spec};
use crate::hittable::aabb::AABB;
use crate::hittable::xy_rect::XYRect;
use crate::hittable::xz_rect::XZRect;
use crate::hittable::yz_rect::YZRect;

verus! {

/// A cuboid spanning two opposite corners, represented by its six faces;
/// intersection delegates to the face group.
#[derive(Debug)]
pub struct Cuboid {
    pub box_min: Point3,
    pub box_max: Point3,
    pub sides: HittableList,
}

pub open spec fn wf_cuboid(c: Cuboid) -> bool
    decreases c, 0int,
{
    &&& in_bounds(c.box_min, COORD_MAX as int)
    &&& in_bounds(c.box_max, COORD_MAX as int)
    &&& wf_list(c.sides)
}

pub open spec fn cuboid_no_medium(c: Cuboid) -> bool
    decreases c, 0int,
{
    list_no_medium(c.sides)
}

pub open spec fn cuboid_materials_within(c: Cuboid, mlen: int) -> bool
    decreases c, 0int,
{
    list_materials_within(c.sides, mlen)
}

pub open spec fn cuboid_hit_spec(c: Cuboid, r: Ray, tmin: int, tmax: int) -> Option<HitRecord>
    decreases c, 1int,
{
    list_hit_spec(c.sides, r, tmin, tmax)
}

/// A cuboid's box is exactly its two corners.
pub open spec fn cuboid_bbox_s(c: Cuboid) -> AABB {
    AABB { min: c.box_min, max: c.box_max }
}

/// The six axis-aligned faces of the cuboid spanned by `p0` and `p1`.
pub open spec fn cuboid_sides_s(p0: Point3, p1: Point3, material: usize) -> Seq<HittableStruct> {
    seq![
        xy_face(p0, p1, p1.z, material),
        xy_face(p0, p1, p0.z, material),
        xz_face(p0, p1, p1.y, material),
        xz_face(p0, p1, p0.y, material),
        yz_face(p0, p1, p1.x, material),
        yz_face(p0, p1, p0.x, material),
    ]
}

pub open spec fn xy_face(p0: Point3, p1: Point3, k: i64, material: usize) -> HittableStruct {
    HittableStruct {
        key: HittableKey::XYRect,
        xy_rect: Some(XYRect { x0: p0.x, x1: p1.x, y0: p0.y, y1: p1.y, k, material }),
        ..empty_slots(HittableKey::XYRect)
    }
}

pub open spec fn xz_face(p0: Point3, p1: Point3, k: i64, material: usize) -> HittableStruct {
    HittableStruct {
        key: HittableKey::XZRect,
        xz_rect: Some(XZRect { x0: p0.x, x1: p1.x, z0: p0.z, z1: p1.z, k, material }),
        ..empty_slots(HittableKey::XZRect)
    }
}

pub open spec fn yz_face(p0: Point3, p1: Point3, k: i64, material: usize) -> HittableStruct {
    HittableStruct {
        key: HittableKey::YZRect,
        yz_rect: Some(YZRect { y0: p0.y, y1: p1.y, z0: p0.z, z1: p1.z, k, material }),
        ..empty_slots(HittableKey::YZRect)
    }
}

/// A holder with every slot empty.
pub open spec fn empty_slots(key: HittableKey) -> HittableStruct {
    HittableStruct {
        key,
        hittable_list: None,
        bvh_node: None,
        translation: None,
        cuboid: None,
        rotate_x: None,
        rotate_y: None,
        rotate_z: None,
        sphere: None,
        moving_sphere: None,
        xy_rect: None,
        xz_rect: None,
        yz_rect: None,
        constant_medium: None,
    }
}

impl Cuboid {
    /// Build the six faces spanning the corners `p0` (minima) and `p1`
    /// (maxima), all sharing one material.
    pub fn new(p0: &Point3, p1: &Point3, material: usize) -> (r: Cuboid)
        requires
            in_bounds(*p0, COORD_MAX as int),
            in_bounds(*p1, COORD_MAX as int),
        ensures
            r.box_min == *p0,
            r.box_max == *p1,
            r.sides.objects@ == cuboid_sides_s(*p0, *p1, material),
            wf_cuboid(r),
            cuboid_no_medium(r),
            forall|m: int| material < m ==> cuboid_materials_within(r, m),
    {
        let mut sides = HittableList::new();
        let mut f0 = HittableStruct::new(HittableKey::XYRect);
        f0.xy_rect = Some(XYRect::new(p0.x, p1.x, p0.y, p1.y, p1.z, material));
        sides.add(f0);
        let mut f1 = HittableStruct::new(HittableKey::XYRect);
        f1.xy_rect = Some(XYRect::new(p0.x, p1.x, p0.y, p1.y, p0.z, material));
        sides.add(f1);
        let mut f2 = HittableStruct::new(HittableKey::XZRect);
        f2.xz_rect = Some(XZRect::new(p0.x, p1.x, p0.z, p1.z, p1.y, material));
        sides.add(f2);
        let mut f3 = HittableStruct::new(HittableKey::XZRect);
        f3.xz_rect = Some(XZRect::new(p0.x, p1.x, p0.z, p1.z, p0.y, material));
        sides.add(f3);
        let mut f4 = HittableStruct::new(HittableKey::YZRect);
        f4.yz_rect = Some(YZRect::new(p0.y, p1.y, p0.z, p1.z, p1.x, material));
        sides.add(f4);
        let mut f5 = HittableStruct::new(HittableKey::YZRect);
        f5.yz_rect = Some(YZRect::new(p0.y, p1.y, p0.z, p1.z, p0.x, material));
        sides.add(f5);
        proof {
            assert(sides.objects@ =~= cuboid_sides_s(*p0, *p1, material));
            assert forall|i: int| 0 <= i < sides.objects@.len() implies crate::hittable::wf_hittable(#[trigger] sides.objects@[i]) by {
                assert(sides.objects@ =~= cuboid_sides_s(*p0, *p1, material));
            }
        }
        Cuboid { box_min: *p0, box_max: *p1, sides }
    }

    pub fn hit(&self, r: &Ray, t_min: i64, t_max: i64, rec: &mut HitRecord, rng: &mut RandomSource) -> (res: bool)
        requires
            wf_cuboid(*self),
            wf_ray(*r),
            -T_MAX <= t_min <= T_MAX,
            -T_MAX <= t_max <= T_MAX,
        ensures
            cuboid_no_medium(*self) ==> res == (cuboid_hit_spec(*self, *r, t_min as int, t_max as int) is Some),
            cuboid_no_medium(*self) && res ==> Some(*final(rec)) == cuboid_hit_spec(*self, *r, t_min as int, t_max as int),
            !res ==> *final(rec) == *old(rec),
            res ==> rec_ok(*final(rec), t_min as int, t_max as int),
            res ==> final(rec).material is Some,
            res ==> forall|m: int| cuboid_materials_within(*self, m) ==> final(rec).material->0 < m,
        decreases *self,
    {
        let res = self.sides.hit(r, t_min, t_max, rec, rng);
        proof {
            if res {
                assert forall|m: int| cuboid_materials_within(*self, m) implies rec.material->0 < m by {
                    assert(list_materials_within(self.sides, m));
                }
            }
        }
        res
    }

    /// The box spanned by the two corners.
    pub fn bounding_box(&self, _time0: i64, _time1: i64, output_box: &mut AABB) -> (res: bool)
        requires
            wf_cuboid(*self),
        ensures
            res,
            *final(output_box) == cuboid_bbox_s(*self),
    {
        *output_box = AABB { min: self.box_min, max: self.box_max };
        true
    }
}

} // verus!
