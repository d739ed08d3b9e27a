//! Everything a ray can be tested against: the closed family of
//! intersectable shapes, their common hit record, and the dispatcher that
//! ties the variants together.

use vstd::prelude::*;
use crate::fx::{tdiv, atan2_s, asin_s, atan2_fx, asin_fx, lemma_atan2_range, lemma_tdiv_range, lemma_tdiv_ordered};
use crate::ray::{Ray, wf_ray};
use crate::vec3::{Vec3, Point3, in_bounds, dot_s, neg_s};

pub mod aabb;
pub use aabb::AABB;

pub mod sphere;
pub use sphere::Sphere;

pub mod xy_rect;
pub use xy_rect::XYRect;
pub mod xz_rect;
pub use xz_rect::XZRect;
pub mod yz_rect;
pub use yz_rect::YZRect;
pub mod hittable_list;
pub use hittable_list::HittableList;
pub mod moving_sphere;
pub use moving_sphere::MovingSphere;
pub mod translation;
pub use translation::Translation;
pub mod cuboid;
pub use cuboid::Cuboid;
pub mod rotate_x;
pub use rotate_x::RotateX;
pub mod rotate_y;
pub use rotate_y::RotateY;
pub mod rotate_z;
pub use rotate_z::RotateZ;
pub mod bvh;
pub use bvh::BvhNode;
pub mod constant_medium;
pub use constant_medium::ConstantMedium;

verus! {

/// What every reported hit guarantees: the parameter lies in the queried
/// window, the point lies in the supported coordinate universe, the stored
/// normal is (close to) unit length, a material is attached and the
/// surface coordinates are within one unit.
pub open spec fn rec_ok(rec: HitRecord, tmin: int, tmax: int) -> bool {
    &&& tmin < rec.t <= tmax
    &&& in_bounds(rec.p, crate::fx::P_MAX as int)
    &&& in_bounds(rec.normal, 1024)
    &&& rec.material is Some
    &&& 0 <= rec.u <= 1024
    &&& 0 <= rec.v <= 1024
}

/// The componentwise union of two boxes: min of minima, max of maxima.
pub open spec fn surrounding_box_s(b0: AABB, b1: AABB) -> AABB {
    AABB {
        min: Point3 {
            x: crate::fx::imin(b0.min.x as int, b1.min.x as int) as i64,
            y: crate::fx::imin(b0.min.y as int, b1.min.y as int) as i64,
            z: crate::fx::imin(b0.min.z as int, b1.min.z as int) as i64,
        },
        max: Point3 {
            x: crate::fx::imax(b0.max.x as int, b1.max.x as int) as i64,
            y: crate::fx::imax(b0.max.y as int, b1.max.y as int) as i64,
            z: crate::fx::imax(b0.max.z as int, b1.max.z as int) as i64,
        },
    }
}

/// Merge two child boxes into one that encloses both.
pub fn surrounding_box(box0: &AABB, box1: &AABB) -> (r: AABB)
    ensures
        r == surrounding_box_s(*box0, *box1),
{
    let small = Point3 {
        x: if box0.min.x <= box1.min.x { box0.min.x } else { box1.min.x },
        y: if box0.min.y <= box1.min.y { box0.min.y } else { box1.min.y },
        z: if box0.min.z <= box1.min.z { box0.min.z } else { box1.min.z },
    };
    let big = Point3 {
        x: if box0.max.x >= box1.max.x { box0.max.x } else { box1.max.x },
        y: if box0.max.y >= box1.max.y { box0.max.y } else { box1.max.y },
        z: if box0.max.z >= box1.max.z { box0.max.z } else { box1.max.z },
    };
    AABB::new(&small, &big)
}

/// Texture coordinates of a point on the unit sphere:
/// `u = 1 - (phi + pi) / (2 pi)`, `v = (theta + pi/2) / pi`, with
/// `phi = atan2(z, x)` and `theta = asin(y)`, all in fixed point. Both
/// quotients divide by the even `2 pi`, so the equator maps to exactly
/// one half in `u` and in `v`.
pub open spec fn sphere_uv_s(p: Point3) -> (int, int) {
    let phi = atan2_s(p.z as int, p.x as int);
    let theta = asin_s(p.y as int);
    (1024 - tdiv((phi + 3217) * 1024, 6434), tdiv((2 * theta + 3217) * 1024, 6434))
}

/// Texture coordinates for a unit-sphere surface point.
pub fn get_sphere_uv(p: &Point3) -> (r: (i64, i64))
    requires
        in_bounds(*p, 1024),
    ensures
        (r.0 as int, r.1 as int) == sphere_uv_s(*p),
        0 <= r.0 <= 1024,
        0 <= r.1 <= 1024,
{
    proof {
        lemma_atan2_range(p.z as int, p.x as int);
    }
    let phi = atan2_fx(p.z, p.x);
    let theta = asin_fx(p.y);
    proof {
        lemma_tdiv_range((phi as int + 3217) * 1024, 6434);
        lemma_tdiv_ordered((phi as int + 3217) * 1024, 6434int * 1024, 6434);
        vstd::arithmetic::div_mod::lemma_div_by_multiple(1024, 6434);
        lemma_tdiv_range((2 * theta as int + 3217) * 1024, 6434);
        lemma_tdiv_ordered((2 * theta as int + 3217) * 1024, 6434int * 1024, 6434);
    }
    let u = 1024 - crate::fx::tdiv64((phi + 3217) * 1024, 6434);
    let v = crate::fx::tdiv64((2 * theta + 3217) * 1024, 6434);
    (u, v)
}

/// What an intersection reports: the point, the oriented unit normal, the
/// index of the material in the scene's material arena, the ray parameter,
/// the surface coordinates and the facing flag.
#[derive(Clone, Copy, Debug)]
pub struct HitRecord {
    pub p: Point3,
    pub normal: Vec3,
    pub material: Option<usize>,
    pub t: i64,
    pub u: i64,
    pub v: i64,
    pub front_face: bool,
}

/// The front-face convention applied to an outward geometric normal: the
/// hit is front-facing iff the ray direction does not point along the
/// outward normal, and the stored normal always opposes the ray.
pub open spec fn face_s(d: Vec3, outward: Vec3) -> (bool, Vec3) {
    if dot_s(d, outward) <= 0 {
        (true, outward)
    } else {
        (false, neg_s(outward))
    }
}

/// The front-face law: a hit is front facing exactly when the ray's
/// direction does not point along the outward geometric normal, and the
/// stored normal always opposes the ray.
pub proof fn lemma_face_convention(d: Vec3, outward: Vec3)
    requires
        in_bounds(d, 0x4000000000000000),
        in_bounds(outward, 0x4000000000000000),
    ensures
        face_s(d, outward).0 <==> dot_s(d, outward) <= 0,
        dot_s(d, face_s(d, outward).1) <= 0,
{
    let nn = neg_s(outward);
    assert(dot_s(d, nn) == d.x * nn.x + d.y * nn.y + d.z * nn.z);
    assert(d.x * nn.x + d.y * nn.y + d.z * nn.z == -(d.x * outward.x + d.y * outward.y + d.z * outward.z))
        by (nonlinear_arith)
        requires
            nn.x == -outward.x,
            nn.y == -outward.y,
            nn.z == -outward.z,
    {
    }
}

/// The front-face law at a sphere hit: the facing flag is exactly the
/// sign test of the ray direction against the outward unit normal from
/// the center to the hit point.
pub proof fn lemma_sphere_front_face(center: Point3, radius: i64, material: usize, r: Ray, tmin: int, tmax: int)
    requires
        in_bounds(center, 0x400000),
        1 <= radius,
        wf_ray(r),
    ensures
        sphere::sphere_hit_at(center, radius, material, r, tmin, tmax) matches Some(rec) ==> {
            let outward = crate::vec3::unit_s(crate::vec3::sub_s(rec.p, center));
            &&& rec.front_face <==> dot_s(r.direction, outward) <= 0
            &&& dot_s(r.direction, rec.normal) <= 0
        },
{
    if sphere::sphere_hit_at(center, radius, material, r, tmin, tmax) is Some {
        let rec = sphere::sphere_hit_at(center, radius, material, r, tmin, tmax)->0;
        let outward = crate::vec3::unit_s(crate::vec3::sub_s(rec.p, center));
        crate::vec3::lemma_unit_s_bounds(crate::vec3::sub_s(rec.p, center));
        lemma_face_convention(r.direction, outward);
    }
}

/// The front-face law at an axis-aligned rectangle: the facing flag is
/// the sign test of the ray direction against the plane's outward normal.
pub proof fn lemma_xy_rect_front_face(s: XYRect, r: Ray, tmin: int, tmax: int)
    requires
        wf_ray(r),
    ensures
        xy_rect::xy_rect_hit_spec(s, r, tmin, tmax) matches Some(rec) ==> {
            &&& rec.front_face <==> r.direction.z <= 0
            &&& dot_s(r.direction, rec.normal) <= 0
        },
{
    if xy_rect::xy_rect_hit_spec(s, r, tmin, tmax) is Some {
        let outward = Vec3 { x: 0i64, y: 0i64, z: 1024i64 };
        lemma_face_convention(r.direction, outward);
        assert(dot_s(r.direction, outward) == r.direction.z * 1024);
        assert(r.direction.z * 1024 <= 0 <==> r.direction.z <= 0) by (nonlinear_arith)
        {
        }
    }
}

/// The front-face law survives a rotation: the facing of a rotated hit
/// is the sign test of the rotated ray's direction against the
/// re-expressed outward normal, and the stored normal opposes the
/// rotated ray.
pub proof fn lemma_rotate_x_front_face(rx: RotateX, r: Ray, tmin: int, tmax: int)
    requires
        rotate_x::wf_rotate_x(rx),
        wf_ray(r),
    ensures
        rotate_x::rotate_x_hit_spec(rx, r, tmin, tmax) matches Some(rec) ==> ({
            let c = rx.cos_theta as int;
            let s = rx.sin_theta as int;
            let of = rotate_x::rot_fwd_s(c, s, r.origin.y as int, r.origin.z as int);
            let df = rotate_x::rot_fwd_s(c, s, r.direction.y as int, r.direction.z as int);
            let o2 = Point3 { x: r.origin.x, y: of.0 as i64, z: of.1 as i64 };
            let d2 = Vec3 { x: r.direction.x, y: df.0 as i64, z: df.1 as i64 };
            let rotated = Ray { origin: o2, direction: d2, time: r.time };
            hit_spec(*rx.ptr, rotated, tmin, tmax) matches Some(rec0) && ({
                let nb = rotate_x::rot_back_s(c, s, rec0.normal.y as int, rec0.normal.z as int);
                let outward = crate::vec3::unit_s(Vec3 { x: rec0.normal.x, y: nb.0 as i64, z: nb.1 as i64 });
                &&& (rec.front_face <==> dot_s(d2, outward) <= 0)
                &&& dot_s(d2, rec.normal) <= 0
            })
        }),
{
    if rotate_x::rotate_x_hit_spec(rx, r, tmin, tmax) is Some {
        let c = rx.cos_theta as int;
        let s = rx.sin_theta as int;
        let of = rotate_x::rot_fwd_s(c, s, r.origin.y as int, r.origin.z as int);
        let df = rotate_x::rot_fwd_s(c, s, r.direction.y as int, r.direction.z as int);
        let o2 = Point3 { x: r.origin.x, y: of.0 as i64, z: of.1 as i64 };
        let d2 = Vec3 { x: r.direction.x, y: df.0 as i64, z: df.1 as i64 };
        let rotated = Ray { origin: o2, direction: d2, time: r.time };
        rotate_x::lemma_rot_bounds(c, s, r.direction.y as int, r.direction.z as int, crate::fx::DIR_MAX as int);
        let rec0 = hit_spec(*rx.ptr, rotated, tmin, tmax)->0;
        let nb = rotate_x::rot_back_s(c, s, rec0.normal.y as int, rec0.normal.z as int);
        let outward = crate::vec3::unit_s(Vec3 { x: rec0.normal.x, y: nb.0 as i64, z: nb.1 as i64 });
        crate::vec3::lemma_unit_s_bounds(Vec3 { x: rec0.normal.x, y: nb.0 as i64, z: nb.1 as i64 });
        lemma_face_convention(d2, outward);
    }
}

impl HitRecord {
    pub fn new() -> (r: HitRecord)
        ensures
            r == (HitRecord {
                p: Point3 { x: 0i64, y: 0i64, z: 0i64 },
                normal: Vec3 { x: 0i64, y: 0i64, z: 0i64 },
                material: None::<usize>,
                t: 0i64,
                u: 0i64,
                v: 0i64,
                front_face: false,
            }),
    {
        HitRecord {
            p: Point3 { x: 0, y: 0, z: 0 },
            normal: Vec3 { x: 0, y: 0, z: 0 },
            material: None,
            t: 0,
            u: 0,
            v: 0,
            front_face: false,
        }
    }

    /// Store the orientation of a hit: `front_face` is true iff
    /// `dot(ray.direction, outward_normal) <= 0`, and the stored normal is
    /// the outward normal flipped to oppose the incoming ray.
    pub fn set_front_face(&mut self, r: &Ray, outward_normal: &Vec3)
        requires
            in_bounds(r.direction, 0x4000000000000000),
            in_bounds(*outward_normal, 0x4000000000000000),
        ensures
            final(self).front_face == face_s(r.direction, *outward_normal).0,
            final(self).normal == face_s(r.direction, *outward_normal).1,
            final(self).p == old(self).p,
            final(self).material == old(self).material,
            final(self).t == old(self).t,
            final(self).u == old(self).u,
            final(self).v == old(self).v,
    {
        let d = r.direction.dot_wide(outward_normal);
        let is_front_face = d <= 0;
        self.front_face = is_front_face;
        self.normal = if is_front_face {
            *outward_normal
        } else {
            outward_normal.neg()
        };
    }
}

/// The tag of each intersectable variant.
#[derive(Clone, Copy, Debug, PartialEq, Eq, Structural)]
pub enum HittableKey {
    HittableList,
    BvhNode,
    Sphere,
    MovingSphere,
    XYRect,
    XZRect,
    YZRect,
    Cuboid,
    Translation,
    RotateX,
    RotateY,
    RotateZ,
    ConstantMedium,
}

/// The closed family of intersectables as a tagged union: the slot named
/// by `key` holds the variant's data, the others stay `None`.
#[derive(Debug)]
pub struct HittableStruct {
    pub key: HittableKey,
    pub hittable_list: Option<Box<hittable_list::HittableList>>,
    pub bvh_node: Option<Box<BvhNode>>,
    pub translation: Option<Translation>,
    pub cuboid: Option<Cuboid>,
    pub rotate_x: Option<Box<RotateX>>,
    pub rotate_y: Option<Box<RotateY>>,
    pub rotate_z: Option<Box<RotateZ>>,
    pub sphere: Option<Sphere>,
    pub moving_sphere: Option<MovingSphere>,
    pub xy_rect: Option<XYRect>,
    pub xz_rect: Option<XZRect>,
    pub yz_rect: Option<YZRect>,
    pub constant_medium: Option<Box<ConstantMedium>>,
}

/// Geometric well-formedness: the slot selected by the key is filled and
/// its contents respect the scene bounds, recursively.
pub open spec fn wf_hittable(s: HittableStruct) -> bool
    decreases s, 0int,
{
    match s.key {
        HittableKey::HittableList => s.hittable_list is Some && hittable_list::wf_list(*s.hittable_list->0),
        HittableKey::BvhNode => s.bvh_node is Some && bvh::wf_bvh_node(*s.bvh_node->0),
        HittableKey::Translation => s.translation is Some && translation::wf_translation(s.translation->0),
        HittableKey::Cuboid => s.cuboid is Some && cuboid::wf_cuboid(s.cuboid->0),
        HittableKey::RotateX => s.rotate_x is Some && rotate_x::wf_rotate_x(*s.rotate_x->0),
        HittableKey::RotateY => s.rotate_y is Some && rotate_y::wf_rotate_y(*s.rotate_y->0),
        HittableKey::RotateZ => s.rotate_z is Some && rotate_z::wf_rotate_z(*s.rotate_z->0),
        HittableKey::Sphere => s.sphere is Some && sphere::wf_sphere(s.sphere->0),
        HittableKey::MovingSphere => s.moving_sphere is Some && moving_sphere::wf_moving_sphere(s.moving_sphere->0),
        HittableKey::XYRect => s.xy_rect is Some && xy_rect::wf_xy_rect(s.xy_rect->0),
        HittableKey::XZRect => s.xz_rect is Some && xz_rect::wf_xz_rect(s.xz_rect->0),
        HittableKey::YZRect => s.yz_rect is Some && yz_rect::wf_yz_rect(s.yz_rect->0),
        HittableKey::ConstantMedium => s.constant_medium is Some && constant_medium::wf_medium(*s.constant_medium->0),
        _ => false,
    }
}

/// Whether the shape tree is free of participating media, whose sampling
/// draws on the random stream; everything else intersects
/// deterministically.
pub open spec fn no_medium(s: HittableStruct) -> bool
    decreases s, 0int,
{
    match s.key {
        HittableKey::HittableList => s.hittable_list is Some ==> hittable_list::list_no_medium(*s.hittable_list->0),
        HittableKey::BvhNode => s.bvh_node is Some ==> bvh::bvh_no_medium(*s.bvh_node->0),
        HittableKey::Translation => s.translation is Some ==> translation::translation_no_medium(s.translation->0),
        HittableKey::Cuboid => s.cuboid is Some ==> cuboid::cuboid_no_medium(s.cuboid->0),
        HittableKey::RotateX => s.rotate_x is Some ==> rotate_x::rotate_x_no_medium(*s.rotate_x->0),
        HittableKey::RotateY => s.rotate_y is Some ==> rotate_y::rotate_y_no_medium(*s.rotate_y->0),
        HittableKey::RotateZ => s.rotate_z is Some ==> rotate_z::rotate_z_no_medium(*s.rotate_z->0),
        HittableKey::ConstantMedium => false,
        _ => true,
    }
}

/// Every material index mentioned in the tree lies below `mlen`, the size
/// of the scene's material arena.
pub open spec fn materials_within(s: HittableStruct, mlen: int) -> bool
    decreases s, 0int,
{
    match s.key {
        HittableKey::HittableList => s.hittable_list is Some ==> hittable_list::list_materials_within(*s.hittable_list->0, mlen),
        HittableKey::BvhNode => s.bvh_node is Some ==> bvh::bvh_materials_within(*s.bvh_node->0, mlen),
        HittableKey::Translation => s.translation is Some ==> translation::translation_materials_within(s.translation->0, mlen),
        HittableKey::Cuboid => s.cuboid is Some ==> cuboid::cuboid_materials_within(s.cuboid->0, mlen),
        HittableKey::RotateX => s.rotate_x is Some ==> rotate_x::rotate_x_materials_within(*s.rotate_x->0, mlen),
        HittableKey::RotateY => s.rotate_y is Some ==> rotate_y::rotate_y_materials_within(*s.rotate_y->0, mlen),
        HittableKey::RotateZ => s.rotate_z is Some ==> rotate_z::rotate_z_materials_within(*s.rotate_z->0, mlen),
        HittableKey::Sphere => s.sphere is Some ==> s.sphere->0.material < mlen,
        HittableKey::MovingSphere => s.moving_sphere is Some ==> s.moving_sphere->0.material < mlen,
        HittableKey::XYRect => s.xy_rect is Some ==> s.xy_rect->0.material < mlen,
        HittableKey::XZRect => s.xz_rect is Some ==> s.xz_rect->0.material < mlen,
        HittableKey::YZRect => s.yz_rect is Some ==> s.yz_rect->0.material < mlen,
        HittableKey::ConstantMedium => s.constant_medium is Some ==> constant_medium::medium_materials_within(*s.constant_medium->0, mlen),
        _ => true,
    }
}

/// The nearest intersection of a deterministic shape with the window
/// `(tmin, tmax]`.
pub open spec fn hit_spec(s: HittableStruct, r: Ray, tmin: int, tmax: int) -> Option<HitRecord>
    decreases s, 1int,
{
    match s.key {
        HittableKey::HittableList => if s.hittable_list is Some {
            hittable_list::list_hit_spec(*s.hittable_list->0, r, tmin, tmax)
        } else {
            None
        },
        HittableKey::BvhNode => if s.bvh_node is Some {
            bvh::bvh_hit_spec(*s.bvh_node->0, r, tmin, tmax)
        } else {
            None
        },
        HittableKey::Translation => if s.translation is Some {
            translation::translation_hit_spec(s.translation->0, r, tmin, tmax)
        } else {
            None
        },
        HittableKey::Cuboid => if s.cuboid is Some {
            cuboid::cuboid_hit_spec(s.cuboid->0, r, tmin, tmax)
        } else {
            None
        },
        HittableKey::RotateX => if s.rotate_x is Some {
            rotate_x::rotate_x_hit_spec(*s.rotate_x->0, r, tmin, tmax)
        } else {
            None
        },
        HittableKey::RotateY => if s.rotate_y is Some {
            rotate_y::rotate_y_hit_spec(*s.rotate_y->0, r, tmin, tmax)
        } else {
            None
        },
        HittableKey::RotateZ => if s.rotate_z is Some {
            rotate_z::rotate_z_hit_spec(*s.rotate_z->0, r, tmin, tmax)
        } else {
            None
        },
        HittableKey::Sphere => if s.sphere is Some {
            sphere::sphere_hit_spec(s.sphere->0, r, tmin, tmax)
        } else {
            None
        },
        HittableKey::MovingSphere => if s.moving_sphere is Some {
            moving_sphere::moving_sphere_hit_spec(s.moving_sphere->0, r, tmin, tmax)
        } else {
            None
        },
        HittableKey::XYRect => if s.xy_rect is Some {
            xy_rect::xy_rect_hit_spec(s.xy_rect->0, r, tmin, tmax)
        } else {
            None
        },
        HittableKey::XZRect => if s.xz_rect is Some {
            xz_rect::xz_rect_hit_spec(s.xz_rect->0, r, tmin, tmax)
        } else {
            None
        },
        HittableKey::YZRect => if s.yz_rect is Some {
            yz_rect::yz_rect_hit_spec(s.yz_rect->0, r, tmin, tmax)
        } else {
            None
        },
        _ => None,
    }
}

/// The conservative box of a shape over a time interval, `None` where the
/// shape is unbounded or empty.
pub open spec fn bbox_spec(s: HittableStruct, t0: int, t1: int) -> Option<AABB>
    decreases s, 1int,
{
    match s.key {
        HittableKey::HittableList => if s.hittable_list is Some {
            hittable_list::list_bbox_spec(*s.hittable_list->0, t0, t1)
        } else {
            None
        },
        HittableKey::BvhNode => if s.bvh_node is Some {
            Some(s.bvh_node->0.bbox)
        } else {
            None
        },
        HittableKey::Translation => if s.translation is Some {
            translation::translation_bbox_s(s.translation->0, t0, t1)
        } else {
            None
        },
        HittableKey::Cuboid => if s.cuboid is Some {
            Some(cuboid::cuboid_bbox_s(s.cuboid->0))
        } else {
            None
        },
        HittableKey::RotateX => if s.rotate_x is Some {
            rotate_x::rotate_x_bbox_s(*s.rotate_x->0)
        } else {
            None
        },
        HittableKey::RotateY => if s.rotate_y is Some {
            rotate_y::rotate_y_bbox_s(*s.rotate_y->0)
        } else {
            None
        },
        HittableKey::RotateZ => if s.rotate_z is Some {
            rotate_z::rotate_z_bbox_s(*s.rotate_z->0)
        } else {
            None
        },
        HittableKey::Sphere => if s.sphere is Some {
            Some(sphere::sphere_bbox_s(s.sphere->0.center, s.sphere->0.radius))
        } else {
            None
        },
        HittableKey::MovingSphere => if s.moving_sphere is Some {
            Some(moving_sphere::moving_sphere_bbox_s(s.moving_sphere->0, t0, t1))
        } else {
            None
        },
        HittableKey::XYRect => if s.xy_rect is Some {
            Some(xy_rect::xy_rect_bbox_s(s.xy_rect->0))
        } else {
            None
        },
        HittableKey::XZRect => if s.xz_rect is Some {
            Some(xz_rect::xz_rect_bbox_s(s.xz_rect->0))
        } else {
            None
        },
        HittableKey::YZRect => if s.yz_rect is Some {
            Some(yz_rect::yz_rect_bbox_s(s.yz_rect->0))
        } else {
            None
        },
        HittableKey::ConstantMedium => if s.constant_medium is Some {
            bbox_spec(*s.constant_medium->0.boundary, t0, t1)
        } else {
            None
        },
        _ => None,
    }
}

impl HittableStruct {
    /// An empty holder for the given variant; the builder fills the
    /// matching slot afterwards.
    pub fn new(key: HittableKey) -> (r: HittableStruct)
        ensures
            r.key == key,
            r.hittable_list is None,
            r.bvh_node is None,
            r.translation is None,
            r.cuboid is None,
            r.rotate_x is None,
            r.rotate_y is None,
            r.rotate_z is None,
            r.sphere is None,
            r.moving_sphere is None,
            r.xy_rect is None,
            r.xz_rect is None,
            r.yz_rect is None,
            r.constant_medium is None,
    {
        HittableStruct {
            key,
            hittable_list: None,
            bvh_node: None,
            translation: None,
            cuboid: None,
            rotate_x: None,
            rotate_y: None,
            rotate_z: None,
            sphere: None,
            moving_sphere: None,
            xy_rect: None,
            xz_rect: None,
            yz_rect: None,
            constant_medium: None,
        }
    }

    /// Dispatch the nearest-hit query to the variant named by the key.
    #[verifier::rlimit(60)]
    pub fn hit(&self, r: &Ray, t_min: i64, t_max: i64, rec: &mut HitRecord, rng: &mut crate::rng::RandomSource) -> (res: bool)
        requires
            wf_hittable(*self),
            wf_ray(*r),
            -crate::fx::T_MAX <= t_min <= crate::fx::T_MAX,
            -crate::fx::T_MAX <= t_max <= crate::fx::T_MAX,
        ensures
            no_medium(*self) ==> res == (hit_spec(*self, *r, t_min as int, t_max as int) is Some),
            no_medium(*self) && res ==> Some(*final(rec)) == hit_spec(*self, *r, t_min as int, t_max as int),
            !res ==> *final(rec) == *old(rec),
            self.key == HittableKey::HittableList && self.hittable_list is Some && !res
                ==> hittable_list::list_det_miss(*self.hittable_list->0, *r, t_min as int, t_max as int),
            res ==> rec_ok(*final(rec), t_min as int, t_max as int),
            res ==> final(rec).material is Some,
            res ==> forall|m: int| materials_within(*self, m) ==> final(rec).material->0 < m,
        decreases *self,
    {
        match self.key {
            HittableKey::HittableList => {
                let res = self.hittable_list.as_ref().unwrap().hit(r, t_min, t_max, rec, rng);
                proof {
                    if res {
                        assert forall|m: int| materials_within(*self, m) implies rec.material->0 < m by {
                            assert(hittable_list::list_materials_within(*self.hittable_list->0, m));
                        }
                    }
                }
                res
            },
            HittableKey::BvhNode => {
                let res = self.bvh_node.as_ref().unwrap().hit(r, t_min, t_max, rec, rng);
                proof {
                    if res {
                        assert forall|m: int| materials_within(*self, m) implies rec.material->0 < m by {
                            assert(bvh::bvh_materials_within(*self.bvh_node->0, m));
                        }
                    }
                }
                res
            },
            HittableKey::Translation => {
                let res = self.translation.as_ref().unwrap().hit(r, t_min, t_max, rec, rng);
                proof {
                    if res {
                        assert forall|m: int| materials_within(*self, m) implies rec.material->0 < m by {
                            assert(translation::translation_materials_within(self.translation->0, m));
                        }
                    }
                }
                res
            },
            HittableKey::Cuboid => {
                let res = self.cuboid.as_ref().unwrap().hit(r, t_min, t_max, rec, rng);
                proof {
                    if res {
                        assert forall|m: int| materials_within(*self, m) implies rec.material->0 < m by {
                            assert(cuboid::cuboid_materials_within(self.cuboid->0, m));
                        }
                    }
                }
                res
            },
            HittableKey::RotateX => {
                let res = self.rotate_x.as_ref().unwrap().hit(r, t_min, t_max, rec, rng);
                proof {
                    if res {
                        assert forall|m: int| materials_within(*self, m) implies rec.material->0 < m by {
                            assert(rotate_x::rotate_x_materials_within(*self.rotate_x->0, m));
                        }
                    }
                }
                res
            },
            HittableKey::RotateY => {
                let res = self.rotate_y.as_ref().unwrap().hit(r, t_min, t_max, rec, rng);
                proof {
                    if res {
                        assert forall|m: int| materials_within(*self, m) implies rec.material->0 < m by {
                            assert(rotate_y::rotate_y_materials_within(*self.rotate_y->0, m));
                        }
                    }
                }
                res
            },
            HittableKey::RotateZ => {
                let res = self.rotate_z.as_ref().unwrap().hit(r, t_min, t_max, rec, rng);
                proof {
                    if res {
                        assert forall|m: int| materials_within(*self, m) implies rec.material->0 < m by {
                            assert(rotate_z::rotate_z_materials_within(*self.rotate_z->0, m));
                        }
                    }
                }
                res
            },
            HittableKey::Sphere => self.sphere.as_ref().unwrap().hit(r, t_min, t_max, rec),
            HittableKey::MovingSphere => self.moving_sphere.as_ref().unwrap().hit(r, t_min, t_max, rec),
            HittableKey::XYRect => self.xy_rect.as_ref().unwrap().hit(r, t_min, t_max, rec),
            HittableKey::XZRect => self.xz_rect.as_ref().unwrap().hit(r, t_min, t_max, rec),
            HittableKey::YZRect => self.yz_rect.as_ref().unwrap().hit(r, t_min, t_max, rec),
            HittableKey::ConstantMedium => {
                let res = self.constant_medium.as_ref().unwrap().hit(r, t_min, t_max, rec, rng);
                proof {
                    if res {
                        assert forall|m: int| materials_within(*self, m) implies rec.material->0 < m by {
                            assert(constant_medium::medium_materials_within(*self.constant_medium->0, m));
                        }
                    }
                }
                res
            },
            _ => {
                proof {
                    assert(false);
                }
                vstd::pervasive::unreached()
            },
        }
    }

    /// Dispatch the bounding-box query to the variant named by the key.
    #[verifier::rlimit(60)]
    pub fn bounding_box(&self, time0: i64, time1: i64, output_box: &mut AABB) -> (res: bool)
        requires
            wf_hittable(*self),
            -crate::fx::COORD_MAX <= time0 <= crate::fx::COORD_MAX,
            -crate::fx::COORD_MAX <= time1 <= crate::fx::COORD_MAX,
        ensures
            res == (bbox_spec(*self, time0 as int, time1 as int) is Some),
            res ==> Some(*final(output_box)) == bbox_spec(*self, time0 as int, time1 as int),
            !res ==> *final(output_box) == *old(output_box),
        decreases *self,
    {
        match self.key {
            HittableKey::HittableList => self.hittable_list.as_ref().unwrap().bounding_box(time0, time1, output_box),
            HittableKey::BvhNode => self.bvh_node.as_ref().unwrap().bounding_box(time0, time1, output_box),
            HittableKey::Translation => self.translation.as_ref().unwrap().bounding_box(time0, time1, output_box),
            HittableKey::Cuboid => self.cuboid.as_ref().unwrap().bounding_box(time0, time1, output_box),
            HittableKey::RotateX => self.rotate_x.as_ref().unwrap().bounding_box(time0, time1, output_box),
            HittableKey::RotateY => self.rotate_y.as_ref().unwrap().bounding_box(time0, time1, output_box),
            HittableKey::RotateZ => self.rotate_z.as_ref().unwrap().bounding_box(time0, time1, output_box),
            HittableKey::Sphere => self.sphere.as_ref().unwrap().bounding_box(time0, time1, output_box),
            HittableKey::MovingSphere => self.moving_sphere.as_ref().unwrap().bounding_box(time0, time1, output_box),
            HittableKey::XYRect => self.xy_rect.as_ref().unwrap().bounding_box(time0, time1, output_box),
            HittableKey::XZRect => self.xz_rect.as_ref().unwrap().bounding_box(time0, time1, output_box),
            HittableKey::YZRect => self.yz_rect.as_ref().unwrap().bounding_box(time0, time1, output_box),
            HittableKey::ConstantMedium => self.constant_medium.as_ref().unwrap().bounding_box(time0, time1, output_box),
            _ => {
                proof {
                    assert(false);
                }
                vstd::pervasive::unreached()
            },
        }
    }
}

/// Any box a well-formed shape reports stays within the box universe.
pub proof fn lemma_bbox_in_universe(s: HittableStruct, t0: int, t1: int)
    requires
        wf_hittable(s),
    ensures
        bbox_spec(s, t0, t1) matches Some(b) ==> aabb::wf_aabb(b),
    decreases s, 2int,
{
    match s.key {
        HittableKey::HittableList => {
            if s.hittable_list is Some {
                let l = *s.hittable_list->0;
                assert(bbox_spec(s, t0, t1) == hittable_list::list_bbox_spec(l, t0, t1));
                assert(hittable_list::list_bbox_spec(l, t0, t1) == hittable_list::list_bbox_upto(l.objects@, l.objects@.len() as int, t0, t1));
                lemma_list_bbox_in_universe(l.objects@, l.objects@.len() as int, t0, t1);
            }
            assert(bbox_spec(s, t0, t1) matches Some(b) ==> aabb::wf_aabb(b));
        },
        HittableKey::MovingSphere => {
            if s.moving_sphere is Some {
                moving_sphere::lemma_ms_center_in_bounds(s.moving_sphere->0, t0);
                moving_sphere::lemma_ms_center_in_bounds(s.moving_sphere->0, t1);
                assert(bbox_spec(s, t0, t1) == Some(moving_sphere::moving_sphere_bbox_s(s.moving_sphere->0, t0, t1)));
            }
            assert(bbox_spec(s, t0, t1) matches Some(b) ==> aabb::wf_aabb(b));
        },
        HittableKey::Translation => {
            if s.translation is Some {
                lemma_bbox_in_universe(*s.translation->0.ptr, t0, t1);
                let tr = s.translation->0;
                assert(bbox_spec(s, t0, t1) == translation::translation_bbox_s(tr, t0, t1));
                match bbox_spec(*tr.ptr, t0, t1) {
                    None => {
                        assert(translation::translation_bbox_s(tr, t0, t1) is None);
                    },
                    Some(cb) => {
                        let sb = AABB {
                            min: translation::shift_clamp_s(cb.min, tr.offset),
                            max: translation::shift_clamp_s(cb.max, tr.offset),
                        };
                        assert(translation::translation_bbox_s(tr, t0, t1) == Some(sb));
                        assert(aabb::wf_aabb(sb));
                    },
                }
            }
            assert(bbox_spec(s, t0, t1) matches Some(b) ==> aabb::wf_aabb(b));
        },
        HittableKey::ConstantMedium => {
            if s.constant_medium is Some {
                lemma_bbox_in_universe(*s.constant_medium->0.boundary, t0, t1);
            }
        },
        HittableKey::BvhNode => {
            if s.bvh_node is Some {
                assert(aabb::wf_aabb(s.bvh_node->0.bbox));
            }
        },
        HittableKey::Sphere => {
            assert(bbox_spec(s, t0, t1) matches Some(b) ==> aabb::wf_aabb(b));
        },
        HittableKey::XYRect => {
            assert(bbox_spec(s, t0, t1) matches Some(b) ==> aabb::wf_aabb(b));
        },
        HittableKey::XZRect => {
            assert(bbox_spec(s, t0, t1) matches Some(b) ==> aabb::wf_aabb(b));
        },
        HittableKey::YZRect => {
            assert(bbox_spec(s, t0, t1) matches Some(b) ==> aabb::wf_aabb(b));
        },
        HittableKey::Cuboid => {
            assert(bbox_spec(s, t0, t1) matches Some(b) ==> aabb::wf_aabb(b));
        },
        HittableKey::RotateX => {
            assert(bbox_spec(s, t0, t1) matches Some(b) ==> aabb::wf_aabb(b));
        },
        HittableKey::RotateY => {
            assert(bbox_spec(s, t0, t1) matches Some(b) ==> aabb::wf_aabb(b));
        },
        HittableKey::RotateZ => {
            assert(bbox_spec(s, t0, t1) matches Some(b) ==> aabb::wf_aabb(b));
        },
    }
}

/// Any box a prefix of a well-formed list reports stays within the box
/// universe.
pub proof fn lemma_list_bbox_in_universe(objects: Seq<HittableStruct>, n: int, t0: int, t1: int)
    requires
        forall|i: int| 0 <= i < objects.len() ==> wf_hittable(#[trigger] objects[i]),
    ensures
        hittable_list::list_bbox_upto(objects, n, t0, t1) matches Some(b) ==> aabb::wf_aabb(b),
    decreases objects, n,
{
    if 0 < n <= objects.len() {
        if n == 1 {
            lemma_bbox_in_universe(objects[0], t0, t1);
        } else {
            lemma_list_bbox_in_universe(objects, n - 1, t0, t1);
            lemma_bbox_in_universe(objects[n - 1], t0, t1);
        }
    }
}

} // verus!
