//! End-to-end checks of the intersection and shading engine over concrete
//! fixed-point scenes. One fixed-point unit is 1/1024.

use ray_tracer_rs::fx::{FX_ONE, T_MAX, sin_fx, asin_fx, atan2_fx, emod64, fdiv64, neg_ln_fx};
use ray_tracer_rs::hittable::{HitRecord, HittableKey, HittableStruct, HittableList, Sphere, MovingSphere, XYRect, Translation, Cuboid, BvhNode, ConstantMedium, AABB, surrounding_box, get_sphere_uv};
use ray_tracer_rs::material::reflect;
use ray_tracer_rs::ray::Ray;
use ray_tracer_rs::rng::RandomSource;
use ray_tracer_rs::vec3::Vec3;

fn sphere_shape(cx: i64, cy: i64, cz: i64, radius: i64, material: usize) -> HittableStruct {
    let mut h = HittableStruct::new(HittableKey::Sphere);
    h.sphere = Some(Sphere::new(&Vec3::new(cx, cy, cz), radius, material));
    h
}

fn ray(ox: i64, oy: i64, oz: i64, dx: i64, dy: i64, dz: i64) -> Ray {
    Ray::new(&Vec3::new(ox, oy, oz), &Vec3::new(dx, dy, dz), 0)
}

/// A unit sphere at the origin, ray from (0,0,-5) toward +z: the hit is
/// at t = 4, entry point (0,0,-1), normal (0,0,-1), front facing.
#[test]
fn unit_sphere_head_on_hit() {
    let world = sphere_shape(0, 0, 0, FX_ONE, 0);
    let r = ray(0, 0, -5 * FX_ONE, 0, 0, FX_ONE);
    let mut rec = HitRecord::new();
    let mut rng = RandomSource::new();
    let hit = world.hit(&r, 1, T_MAX, &mut rec, &mut rng);
    assert!(hit);
    assert_eq!(rec.t, 4 * FX_ONE);
    assert_eq!(rec.p.x, 0);
    assert_eq!(rec.p.y, 0);
    assert_eq!(rec.p.z, -FX_ONE);
    assert_eq!(rec.normal.x, 0);
    assert_eq!(rec.normal.y, 0);
    assert_eq!(rec.normal.z, -FX_ONE);
    assert!(rec.front_face);
    assert_eq!(rec.material, Some(0));
}

/// Every sphere hit point lies on the sphere within fixed-point
/// tolerance, and the normal points from the center to the point.
#[test]
fn sphere_hit_points_on_surface() {
    let world = sphere_shape(300, -200, 4096, 2048, 0);
    let mut rng = RandomSource::new();
    let mut checked = 0;
    for i in -6..7 {
        for j in -6..7 {
            let r = ray(0, 0, -4096, i * 100, j * 100, FX_ONE);
            let mut rec = HitRecord::new();
            if world.hit(&r, 1, T_MAX, &mut rec, &mut rng) {
                let dx = (rec.p.x - 300) as i128;
                let dy = (rec.p.y + 200) as i128;
                let dz = (rec.p.z - 4096) as i128;
                let n2 = dx * dx + dy * dy + dz * dz;
                let r2 = 2048i128 * 2048;
                // |p - C|^2 within 2% of r^2
                assert!((n2 - r2).abs() * 50 < r2, "off-surface hit: {} vs {}", n2, r2);
                // normal parallel to p - C: cross product near zero
                let (nx, ny, nz) = (rec.normal.x as i128, rec.normal.y as i128, rec.normal.z as i128);
                let cx = dy * nz - dz * ny;
                let cy = dz * nx - dx * nz;
                let cz = dx * ny - dy * nx;
                let cross2 = cx * cx + cy * cy + cz * cz;
                let scale = (dx * dx + dy * dy + dz * dz) * (nx * nx + ny * ny + nz * nz);
                assert!(cross2 * 100 < scale + 1000000, "normal not radial");
                checked += 1;
            }
        }
    }
    assert!(checked > 20);
}

/// The slab test is symmetric under negating the ray and reflecting the
/// box through the origin.
#[test]
fn aabb_slab_mirror_symmetry() {
    let cases = [
        (
            AABB::new(&Vec3::new(-1024, -1024, -1024), &Vec3::new(1024, 1024, 1024)),
            ray(0, 0, -4096, 10, 20, 1024),
        ),
        (
            AABB::new(&Vec3::new(0, 0, 0), &Vec3::new(2048, 512, 512)),
            ray(-2048, 100, 100, 1024, 0, 0),
        ),
        (
            AABB::new(&Vec3::new(0, 0, 0), &Vec3::new(2048, 512, 512)),
            ray(-2048, 900, 100, 1024, 0, 0),
        ),
        (
            AABB::new(&Vec3::new(-500, -500, -500), &Vec3::new(500, 500, 500)),
            ray(2048, 2048, 2048, -700, -700, -700),
        ),
    ];
    for (b, r) in cases.iter() {
        let mirrored_box = AABB::new(
            &Vec3::new(-b.max.x, -b.max.y, -b.max.z),
            &Vec3::new(-b.min.x, -b.min.y, -b.min.z),
        );
        let mirrored_ray = Ray::new(
            &Vec3::new(-r.origin.x, -r.origin.y, -r.origin.z),
            &Vec3::new(-r.direction.x, -r.direction.y, -r.direction.z),
            r.time,
        );
        assert_eq!(b.hit(r, 1, T_MAX, ), mirrored_box.hit(&mirrored_ray, 1, T_MAX));
    }
}

/// Translating a shape by v and then by -v behaves exactly like the
/// shape itself.
#[test]
fn translate_round_trip() {
    let plain = sphere_shape(0, 0, 0, FX_ONE, 0);
    let inner_shape = sphere_shape(0, 0, 0, FX_ONE, 0);
    let v = Vec3::new(700, -300, 512);
    let mut inner = HittableStruct::new(HittableKey::Translation);
    inner.translation = Some(Translation::new(inner_shape, &v));
    let mut outer = HittableStruct::new(HittableKey::Translation);
    outer.translation = Some(Translation::new(inner, &Vec3::new(-700, 300, -512)));
    let mut rng = RandomSource::new();
    for i in -5..6 {
        for j in -5..6 {
            let r = ray(i * 200, j * 200, -5 * FX_ONE, -i * 20, -j * 20, FX_ONE);
            let mut rec_a = HitRecord::new();
            let mut rec_b = HitRecord::new();
            let ha = plain.hit(&r, 1, T_MAX, &mut rec_a, &mut rng);
            let hb = outer.hit(&r, 1, T_MAX, &mut rec_b, &mut rng);
            assert_eq!(ha, hb);
            if ha {
                assert_eq!(rec_a.t, rec_b.t);
                assert_eq!(rec_a.p.x, rec_b.p.x);
                assert_eq!(rec_a.p.y, rec_b.p.y);
                assert_eq!(rec_a.p.z, rec_b.p.z);
            }
        }
    }
}

fn demo_scene_objects() -> Vec<HittableStruct> {
    let mut v = Vec::new();
    v.push(sphere_shape(0, 0, 0, FX_ONE, 0));
    v.push(sphere_shape(3 * FX_ONE, 100, 2 * FX_ONE, FX_ONE / 2, 1));
    v.push(sphere_shape(-2 * FX_ONE, -300, 4 * FX_ONE, FX_ONE, 0));
    let mut rect = HittableStruct::new(HittableKey::XYRect);
    rect.xy_rect = Some(XYRect::new(-4096, 4096, -4096, 4096, 6 * FX_ONE, 1));
    v.push(rect);
    let mut cub = HittableStruct::new(HittableKey::Cuboid);
    cub.cuboid = Some(Cuboid::new(&Vec3::new(1024, 1024, 1024), &Vec3::new(2048, 2048, 2048), 0));
    v.push(cub);
    v
}

/// The hierarchy reports exactly the hits of a linear scan over the same
/// shapes: same hit/no-hit, same parameter, same point.
#[test]
fn bvh_matches_linear_list() {
    let mut rng = RandomSource::new();
    let mut list = HittableList::new();
    for o in demo_scene_objects() {
        list.add(o);
    }
    let mut list_shape = HittableStruct::new(HittableKey::HittableList);
    list_shape.hittable_list = Some(Box::new(list));
    let node = BvhNode::new(demo_scene_objects(), 0, FX_ONE, &mut rng).expect("buildable scene");
    let mut bvh_shape = HittableStruct::new(HittableKey::BvhNode);
    bvh_shape.bvh_node = Some(Box::new(node));
    for i in -8..9 {
        for j in -8..9 {
            let r = ray(i * 300, j * 300, -6 * FX_ONE, -i * 30, -j * 30, FX_ONE);
            let mut rec_a = HitRecord::new();
            let mut rec_b = HitRecord::new();
            let ha = list_shape.hit(&r, 1, T_MAX, &mut rec_a, &mut rng);
            let hb = bvh_shape.hit(&r, 1, T_MAX, &mut rec_b, &mut rng);
            assert_eq!(ha, hb, "hit disagreement at {} {}", i, j);
            if ha {
                assert_eq!(rec_a.t, rec_b.t, "t disagreement at {} {}", i, j);
                assert_eq!(rec_a.p.x, rec_b.p.x);
                assert_eq!(rec_a.p.y, rec_b.p.y);
                assert_eq!(rec_a.p.z, rec_b.p.z);
            }
        }
    }
}

/// A built node's box is the union of its children's boxes.
#[test]
fn bvh_box_is_union_of_children() {
    let mut rng = RandomSource::new();
    let node = BvhNode::new(demo_scene_objects(), 0, FX_ONE, &mut rng).expect("buildable scene");
    let mut left_box = AABB::new(&Vec3::new(0, 0, 0), &Vec3::new(0, 0, 0));
    assert!(node.left.bounding_box(0, FX_ONE, &mut left_box));
    let expected = match &node.right {
        Some(rb) => {
            let mut right_box = AABB::new(&Vec3::new(0, 0, 0), &Vec3::new(0, 0, 0));
            assert!(rb.bounding_box(0, FX_ONE, &mut right_box));
            surrounding_box(&left_box, &right_box)
        },
        None => left_box,
    };
    assert_eq!(node.bbox.min.x, expected.min.x);
    assert_eq!(node.bbox.min.y, expected.min.y);
    assert_eq!(node.bbox.min.z, expected.min.z);
    assert_eq!(node.bbox.max.x, expected.max.x);
    assert_eq!(node.bbox.max.y, expected.max.y);
    assert_eq!(node.bbox.max.z, expected.max.z);
}

/// A moving sphere sits at its keyframe centers at the interval's ends.
#[test]
fn moving_sphere_interpolates() {
    let ms = MovingSphere::new(&Vec3::new(0, 0, 0), &Vec3::new(2048, 0, 0), 0, FX_ONE, 512, 0);
    let c0 = ms.center(0);
    let c1 = ms.center(FX_ONE);
    let cm = ms.center(FX_ONE / 2);
    assert_eq!((c0.x, c0.y, c0.z), (0, 0, 0));
    assert_eq!((c1.x, c1.y, c1.z), (2048, 0, 0));
    assert_eq!(cm.x, 1024);
    // clamped outside the shutter interval
    let cb = ms.center(-FX_ONE);
    assert_eq!(cb.x, 0);
}

/// The cuboid is hit on its near face.
#[test]
fn cuboid_near_face_hit() {
    let mut cub = HittableStruct::new(HittableKey::Cuboid);
    cub.cuboid = Some(Cuboid::new(&Vec3::new(-1024, -1024, 1024), &Vec3::new(1024, 1024, 3072), 0));
    let r = ray(0, 0, -1024, 0, 0, 1024);
    let mut rec = HitRecord::new();
    let mut rng = RandomSource::new();
    assert!(cub.hit(&r, 1, T_MAX, &mut rec, &mut rng));
    assert_eq!(rec.t, 2 * FX_ONE);
    assert_eq!(rec.p.z, 1024);
    // the near face's outward normal points along +z, with the incoming
    // ray: a back-face hit whose stored normal is flipped to oppose it
    assert!(!rec.front_face);
    assert_eq!(rec.normal.z, -1024);
}

/// The box union encloses both arguments.
#[test]
fn surrounding_box_is_union() {
    let a = AABB::new(&Vec3::new(-10, 0, 5), &Vec3::new(100, 50, 60));
    let b = AABB::new(&Vec3::new(-20, 10, 7), &Vec3::new(90, 80, 50));
    let u = surrounding_box(&a, &b);
    assert_eq!((u.min.x, u.min.y, u.min.z), (-20, 0, 5));
    assert_eq!((u.max.x, u.max.y, u.max.z), (100, 80, 60));
}

/// A participating medium scatters strictly inside its boundary, or not
/// at all.
#[test]
fn medium_scatters_inside_boundary() {
    let boundary = sphere_shape(0, 0, 0, 2048, 0);
    let mut med = HittableStruct::new(HittableKey::ConstantMedium);
    med.constant_medium = Some(Box::new(ConstantMedium::new(boundary, 2048, 1)));
    let mut rng = RandomSource::new();
    let r = ray(0, 0, -8192, 0, 0, 1024);
    let mut hits = 0;
    for _ in 0..200 {
        let mut rec = HitRecord::new();
        if med.hit(&r, 1, T_MAX, &mut rec, &mut rng) {
            hits += 1;
            // the scattering event lies within the chord through the sphere
            assert!(rec.t >= 6 * FX_ONE && rec.t <= 10 * FX_ONE, "t = {}", rec.t);
            assert_eq!(rec.material, Some(1));
        }
    }
    assert!(hits > 50, "medium with density 2 almost always scatters, got {}", hits);
}

/// The sphere UV mapping sends the cardinal points where the formulas
/// say.
#[test]
fn sphere_uv_cardinal_points() {
    // +x axis: phi = atan2(0, 1) = 0, u = 1 - (0 + pi)/(2 pi) = 1/2; v = 1/2,
    // both exactly: the two quotients divide by the even 2 pi
    let (u, v) = get_sphere_uv(&Vec3::new(1024, 0, 0));
    assert_eq!(u, 512);
    assert_eq!(v, 512);
    // north pole: theta = pi/2, v = 1
    let (_u2, v2) = get_sphere_uv(&Vec3::new(0, 1024, 0));
    assert!(v2 >= 1020, "v = {}", v2);
    // south pole: v = 0
    let (_u3, v3) = get_sphere_uv(&Vec3::new(0, -1024, 0));
    assert!(v3 <= 4, "v = {}", v3);
}

/// Fixed-point trigonometry stays near the mathematical values.
#[test]
fn fixed_point_trig_values() {
    assert_eq!(sin_fx(0), 0);
    assert!((sin_fx(1608) - 1024).abs() <= 8); // sin(pi/2) = 1
    assert!(sin_fx(3217).abs() <= 8); // sin(pi) = 0
    assert!((sin_fx(4825) + 1024).abs() <= 8); // sin(3 pi / 2) = -1
    assert!((asin_fx(1024) - 1608).abs() <= 8); // asin(1) = pi/2
    assert!(asin_fx(0).abs() <= 8);
    assert!((atan2_fx(0, 1024)).abs() <= 8); // atan2(0, 1) = 0
    assert!((atan2_fx(1024, 0) - 1608).abs() <= 8); // atan2(1, 0) = pi/2
    assert_eq!(emod64(-3, 10), 7);
    assert_eq!(fdiv64(-3, 2), -2);
    assert_eq!(neg_ln_fx(1024), 0); // -ln(1) = 0
    assert!((neg_ln_fx(512) - 710).abs() <= 12); // -ln(1/2) = ln 2
    assert!((neg_ln_fx(1) - 7098).abs() <= 760); // -ln(1/1024) = 10 ln 2
}

/// Mirror reflection about a unit normal.
#[test]
fn reflect_head_on() {
    let v = Vec3::new(0, 0, 1024);
    let n = Vec3::new(0, 0, -1024);
    let r = reflect(&v, &n);
    assert_eq!((r.x, r.y, r.z), (0, 0, -1024));
    // grazing 45 degrees in the x-z plane
    let v2 = Vec3::new(724, 0, 724);
    let n2 = Vec3::new(0, 0, -1024);
    let r2 = reflect(&v2, &n2);
    assert_eq!(r2.x, 724);
    assert!((r2.z + 724).abs() <= 2);
}

/// The rotation decorator maps a +x sphere to +z under a quarter turn
/// about the y axis.
#[test]
fn rotate_y_quarter_turn() {
    let inner = sphere_shape(3 * FX_ONE, 0, 0, FX_ONE, 0);
    let mut rot = HittableStruct::new(HittableKey::RotateY);
    rot.rotate_y = Some(Box::new(ray_tracer_rs::hittable::RotateY::new(inner, 90 * FX_ONE)));
    let mut rng = RandomSource::new();
    // the rotated sphere should now be met by a ray along +z or -z
    let r = ray(0, 0, -8192, 0, 0, 1024);
    let r2 = ray(0, 0, 8192, 0, 0, -1024);
    let mut rec = HitRecord::new();
    let hit_neg = rot.hit(&r, 1, T_MAX, &mut rec, &mut rng);
    let hit_pos = rot.hit(&r2, 1, T_MAX, &mut rec, &mut rng);
    assert!(hit_neg || hit_pos);
    // and no longer along the x axis
    let r3 = ray(-8192, 0, 0, 1024, 0, 0);
    let mut rec3 = HitRecord::new();
    assert!(!rot.hit(&r3, 1, T_MAX, &mut rec3, &mut rng));
}

#[test]
fn hittable_list_picks_nearest() {
    let mut list = HittableList::new();
    list.add(sphere_shape(0, 0, 8 * FX_ONE, FX_ONE, 0));
    list.add(sphere_shape(0, 0, 4 * FX_ONE, FX_ONE, 1));
    list.add(sphere_shape(0, 0, 12 * FX_ONE, FX_ONE, 2));
    let mut shape = HittableStruct::new(HittableKey::HittableList);
    shape.hittable_list = Some(Box::new(list));
    let r = ray(0, 0, -4096, 0, 0, 1024);
    let mut rec = HitRecord::new();
    let mut rng = RandomSource::new();
    assert!(shape.hit(&r, 1, T_MAX, &mut rec, &mut rng));
    assert_eq!(rec.material, Some(1));
    assert_eq!(rec.t, 7 * FX_ONE);
}

#[test]
fn list_clear_empties() {
    let mut list = HittableList::new();
    list.add(sphere_shape(0, 0, 0, FX_ONE, 0));
    list.clear();
    let mut shape = HittableStruct::new(HittableKey::HittableList);
    shape.hittable_list = Some(Box::new(list));
    let r = ray(0, 0, -4096, 0, 0, 1024);
    let mut rec = HitRecord::new();
    let mut rng = RandomSource::new();
    assert!(!shape.hit(&r, 1, T_MAX, &mut rec, &mut rng));
}
