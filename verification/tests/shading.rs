//! Checks of textures, materials and the light-transport integrator.

use ray_tracer_rs::fx::{FX_ONE, T_MAX};
use ray_tracer_rs::hittable::{HitRecord, HittableKey, HittableStruct, HittableList, Sphere};
use ray_tracer_rs::material::{MaterialKey, MaterialStruct, Lambertian, Metal, Dielectric, DiffuseLight, Isotropic};
use ray_tracer_rs::ray::Ray;
use ray_tracer_rs::rng::RandomSource;
use ray_tracer_rs::texture::{TextureKey, TextureStruct, SolidColor, Checker, NoiseTexture, ImageTexture};
use ray_tracer_rs::vec3::Vec3;

fn solid(r: i64, g: i64, b: i64) -> TextureStruct {
    let mut t = TextureStruct::new(TextureKey::SolidColor);
    t.solid_color = Some(SolidColor::new(&Vec3::new(r, g, b)));
    t
}

fn sphere_shape(cx: i64, cy: i64, cz: i64, radius: i64, material: usize) -> HittableStruct {
    let mut h = HittableStruct::new(HittableKey::Sphere);
    h.sphere = Some(Sphere::new(&Vec3::new(cx, cy, cz), radius, material));
    h
}

fn empty_world() -> HittableStruct {
    let mut shape = HittableStruct::new(HittableKey::HittableList);
    shape.hittable_list = Some(Box::new(HittableList::new()));
    shape
}

fn ray(ox: i64, oy: i64, oz: i64, dx: i64, dy: i64, dz: i64) -> Ray {
    Ray::new(&Vec3::new(ox, oy, oz), &Vec3::new(dx, dy, dz), 0)
}

/// An exhausted bounce budget yields black whatever the scene holds.
#[test]
fn ray_color_depth_zero_is_black() {
    let mut materials: Vec<MaterialStruct> = Vec::new();
    let mut m = MaterialStruct::new(MaterialKey::Lambertian);
    m.lambertian = Some(Lambertian::new(solid(512, 512, 512)));
    materials.push(m);
    let world = sphere_shape(0, 0, 0, FX_ONE, 0);
    let mut rng = RandomSource::new();
    let r = ray(0, 0, -5 * FX_ONE, 0, 0, FX_ONE);
    let background = Vec3::new(700, 800, 900);
    let c = r.color(&background, &world, &materials, 0, &mut rng);
    assert_eq!((c.x, c.y, c.z), (0, 0, 0));
    let c2 = r.color(&background, &world, &materials, -3, &mut rng);
    assert_eq!((c2.x, c2.y, c2.z), (0, 0, 0));
}

/// An empty scene yields exactly the background.
#[test]
fn ray_color_empty_scene_is_background() {
    let materials: Vec<MaterialStruct> = Vec::new();
    let world = empty_world();
    let mut rng = RandomSource::new();
    let background = Vec3::new(700, 800, 900);
    for i in -4..5 {
        let r = ray(i * 100, 0, -5 * FX_ONE, -i * 10, i * 7, FX_ONE);
        let c = r.color(&background, &world, &materials, 50, &mut rng);
        assert_eq!((c.x, c.y, c.z), (700, 800, 900));
    }
}

/// A direct hit on an emissive sphere returns exactly its emission: the
/// light declines to scatter, so no bounce can add anything.
#[test]
fn diffuse_light_direct_hit_radiance() {
    let mut materials: Vec<MaterialStruct> = Vec::new();
    let mut m = MaterialStruct::new(MaterialKey::DiffuseLight);
    m.diffuse_light = Some(DiffuseLight::new(solid(4 * FX_ONE, 4 * FX_ONE, 4 * FX_ONE)));
    materials.push(m);
    let world = sphere_shape(0, 0, 0, FX_ONE, 0);
    let mut rng = RandomSource::new();
    let background = Vec3::new(0, 0, 0);
    let r = ray(0, 0, -5 * FX_ONE, 0, 0, FX_ONE);
    for depth in [1, 2, 50] {
        let c = r.color(&background, &world, &materials, depth, &mut rng);
        assert_eq!((c.x, c.y, c.z), (4 * FX_ONE, 4 * FX_ONE, 4 * FX_ONE));
    }
}

/// A head-on dielectric hit refracts with high probability, tracking the
/// Schlick reflectance (about 4% at normal incidence for index 1.5).
#[test]
fn dielectric_head_on_mostly_refracts() {
    let die = Dielectric::new(1536);
    let mut rng = RandomSource::new();
    let r = ray(0, 0, -2 * FX_ONE, 0, 0, FX_ONE);
    let rec = HitRecord {
        p: Vec3::new(0, 0, -FX_ONE),
        normal: Vec3::new(0, 0, -FX_ONE),
        material: Some(0),
        t: FX_ONE,
        u: 512,
        v: 512,
        front_face: true,
    };
    let trials = 2000;
    let mut refracted = 0;
    for _ in 0..trials {
        let mut attenuation = Vec3::new(0, 0, 0);
        let mut scattered = ray(0, 0, 0, 0, 0, 1024);
        let ok = die.scatter(&r, &rec, &mut attenuation, &mut scattered, &mut rng);
        assert!(ok);
        assert_eq!((attenuation.x, attenuation.y, attenuation.z), (1024, 1024, 1024));
        if scattered.direction.z > 0 {
            refracted += 1;
        }
    }
    // Schlick at normal incidence: ((1 - 1.5)/(1 + 1.5))^2 = 0.04
    let reflected = trials - refracted;
    assert!(refracted * 100 > trials * 85, "refracted only {} of {}", refracted, trials);
    assert!(reflected * 100 >= trials, "expected some reflection, got {}", reflected);
    assert!(reflected * 100 <= trials * 9, "too much reflection: {}", reflected);
}

/// A metal mirror reflects a 45-degree ray and absorbs one scattered
/// into the surface.
#[test]
fn metal_reflects_and_absorbs() {
    let met = Metal::new(&Vec3::new(900, 800, 700), 0);
    let mut rng = RandomSource::new();
    let rec = HitRecord {
        p: Vec3::new(0, 0, 0),
        normal: Vec3::new(0, 0, -FX_ONE),
        material: Some(0),
        t: FX_ONE,
        u: 0,
        v: 0,
        front_face: true,
    };
    let r = ray(-724, 0, -724, 724, 0, 724);
    let mut attenuation = Vec3::new(0, 0, 0);
    let mut scattered = ray(0, 0, 0, 0, 0, 1024);
    let ok = met.scatter(&r, &rec, &mut attenuation, &mut scattered, &mut rng);
    assert!(ok);
    assert_eq!((attenuation.x, attenuation.y, attenuation.z), (900, 800, 700));
    assert!(scattered.direction.x > 0);
    assert!(scattered.direction.z < 0);
}

/// Lambertian scattering always succeeds and samples around the normal.
#[test]
fn lambertian_scatters_about_normal() {
    let lam = Lambertian::new(solid(512, 256, 128));
    let mut rng = RandomSource::new();
    let rec = HitRecord {
        p: Vec3::new(0, 0, -FX_ONE),
        normal: Vec3::new(0, 0, -FX_ONE),
        material: Some(0),
        t: FX_ONE,
        u: 100,
        v: 200,
        front_face: true,
    };
    let r = ray(0, 0, -5 * FX_ONE, 0, 0, FX_ONE);
    for _ in 0..50 {
        let mut attenuation = Vec3::new(0, 0, 0);
        let mut scattered = ray(0, 0, 0, 0, 0, 1024);
        assert!(lam.scatter(&r, &rec, &mut attenuation, &mut scattered, &mut rng));
        assert_eq!((attenuation.x, attenuation.y, attenuation.z), (512, 256, 128));
        assert_eq!(scattered.origin.z, -FX_ONE);
        // the direction is the normal plus a unit sample
        assert!(scattered.direction.x.abs() <= 1024);
        assert!(scattered.direction.y.abs() <= 1024);
        assert!(scattered.direction.z >= -2048 && scattered.direction.z <= 0);
    }
}

/// The isotropic phase function scatters into the unit ball.
#[test]
fn isotropic_scatters_unit_ball() {
    let iso = Isotropic::new(solid(512, 512, 512));
    let mut rng = RandomSource::new();
    let rec = HitRecord {
        p: Vec3::new(100, 200, 300),
        normal: Vec3::new(1024, 0, 0),
        material: Some(0),
        t: FX_ONE,
        u: 0,
        v: 0,
        front_face: true,
    };
    let r = ray(0, 0, 0, 0, 0, 1024);
    for _ in 0..50 {
        let mut attenuation = Vec3::new(0, 0, 0);
        let mut scattered = ray(0, 0, 0, 0, 0, 1024);
        assert!(iso.scatter(&r, &rec, &mut attenuation, &mut scattered, &mut rng));
        let d = &scattered.direction;
        let n2 = d.x * d.x + d.y * d.y + d.z * d.z;
        assert!(n2 >= 1 && n2 <= 1024 * 1024);
        assert_eq!(scattered.origin.x, 100);
    }
}

/// The checker selects by the parity of the three half-wave cells.
#[test]
fn checker_alternates_cells() {
    let mut ch = TextureStruct::new(TextureKey::Checker);
    ch.checker = Some(Checker::new(solid(0, 0, 0), solid(1024, 1024, 1024)));
    // at the origin every cell index is zero: even
    let at_origin = ch.value(0, 0, &Vec3::new(0, 0, 0));
    // half a pi along x in the sine argument: 10 x = pi means x = pi/10,
    // i.e. x = 322 fixed-point units lands in the next cell: odd
    let shifted = ch.value(0, 0, &Vec3::new(400, 0, 0));
    assert_eq!((at_origin.x, at_origin.y, at_origin.z), (1024, 1024, 1024));
    assert_eq!((shifted.x, shifted.y, shifted.z), (0, 0, 0));
}

/// The noise field is deterministic in its seed and bounded.
#[test]
fn noise_texture_deterministic_and_bounded() {
    let mut t1 = TextureStruct::new(TextureKey::NoiseTexture);
    t1.noise_texture = Some(NoiseTexture::new(4 * FX_ONE, 7));
    let mut t2 = TextureStruct::new(TextureKey::NoiseTexture);
    t2.noise_texture = Some(NoiseTexture::new(4 * FX_ONE, 7));
    for i in 0..20 {
        let p = Vec3::new(i * 300, i * 170, i * 260);
        let a = t1.value(0, 0, &p);
        let b = t2.value(0, 0, &p);
        assert_eq!(a.x, b.x);
        assert!(a.x >= 0 && a.x <= 1024);
        assert_eq!(a.x, a.y);
        assert_eq!(a.x, a.z);
    }
}

/// The raster lookup returns the scaled bytes of the addressed pixel,
/// and a failed load yields the debug color.
#[test]
fn image_texture_lookup() {
    // a 2 x 2 raster: top row red, green; bottom row blue, white
    let data: Vec<u8> = vec![
        255, 0, 0, 0, 255, 0,
        0, 0, 255, 255, 255, 255,
    ];
    let mut t = TextureStruct::new(TextureKey::ImageTexture);
    t.image_texture = Some(ImageTexture::new(data, 2, 2));
    // v near 1 addresses the top row
    let c = t.value(0, 1000, &Vec3::new(0, 0, 0));
    assert_eq!((c.x, c.y, c.z), (1024, 0, 0));
    let c2 = t.value(1000, 1000, &Vec3::new(0, 0, 0));
    assert_eq!((c2.x, c2.y, c2.z), (0, 1024, 0));
    let c3 = t.value(0, 0, &Vec3::new(0, 0, 0));
    assert_eq!((c3.x, c3.y, c3.z), (0, 0, 1024));
    // out-of-range surface coordinates are clamped, not rejected
    let c4 = t.value(-500, 5000, &Vec3::new(0, 0, 0));
    assert_eq!((c4.x, c4.y, c4.z), (1024, 0, 0));
    // mismatched data stands for a failed load: fixed debug color
    let mut bad = TextureStruct::new(TextureKey::ImageTexture);
    bad.image_texture = Some(ImageTexture::new(Vec::new(), 2, 2));
    let cb = bad.value(0, 0, &Vec3::new(0, 0, 0));
    assert_eq!((cb.x, cb.y, cb.z), (0, 1024, 1024));
}

/// A lambertian scene bounded by depth terminates and stays within the
/// radiance budget.
#[test]
fn ray_color_bounded_scene() {
    let mut materials: Vec<MaterialStruct> = Vec::new();
    let mut m = MaterialStruct::new(MaterialKey::Lambertian);
    m.lambertian = Some(Lambertian::new(solid(512, 512, 512)));
    materials.push(m);
    let mut light = MaterialStruct::new(MaterialKey::DiffuseLight);
    light.diffuse_light = Some(DiffuseLight::new(solid(2048, 2048, 2048)));
    materials.push(light);
    let mut list = HittableList::new();
    let mut s0 = HittableStruct::new(HittableKey::Sphere);
    s0.sphere = Some(Sphere::new(&Vec3::new(0, 0, 0), FX_ONE, 0));
    list.add(s0);
    let mut s1 = HittableStruct::new(HittableKey::Sphere);
    s1.sphere = Some(Sphere::new(&Vec3::new(0, 3 * FX_ONE, 0), FX_ONE, 1));
    list.add(s1);
    let mut world = HittableStruct::new(HittableKey::HittableList);
    world.hittable_list = Some(Box::new(list));
    let mut rng = RandomSource::new();
    let background = Vec3::new(100, 100, 100);
    for i in -3..4 {
        let r = ray(i * 200, -2 * FX_ONE, -5 * FX_ONE, -i * 20, 300, FX_ONE);
        let c = r.color(&background, &world, &materials, 30, &mut rng);
        assert!(c.x >= 0 && c.y >= 0 && c.z >= 0);
        assert!(c.x <= 30 * 2097152);
    }
}
