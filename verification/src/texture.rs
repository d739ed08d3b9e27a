//! Spatial color functions: constant colors, a 3-D checker pattern, a
//! seeded noise field and raster lookups.

use vstd::prelude::*;
use crate::fx::COORD_MAX;
use crate::vec3::{Vec3, Color, Point3, in_bounds};

pub mod solid_color;
pub use solid_color::SolidColor;

pub mod checker;
pub use checker::Checker;

pub mod noise_texture;
pub use noise_texture::NoiseTexture;

pub mod image_texture;
pub use image_texture::ImageTexture;

verus! {

/// The tag of each texture variant.
#[derive(Clone, Copy, Debug, PartialEq, Eq, Structural)]
pub enum TextureKey {
    SolidColor,
    Checker,
    NoiseTexture,
    ImageTexture,
}

/// The closed family of textures as a tagged union: the slot named by
/// `key` holds the variant's data.
#[derive(Debug)]
pub struct TextureStruct {
    pub key: TextureKey,
    pub solid_color: Option<SolidColor>,
    pub checker: Option<Checker>,
    pub noise_texture: Option<NoiseTexture>,
    pub image_texture: Option<ImageTexture>,
}

/// The slot selected by the key is filled and its contents respect the
/// scene bounds; every channel a texture can produce is nonnegative and
/// within scene bounds.
pub open spec fn wf_texture(t: TextureStruct) -> bool
    decreases t, 0int,
{
    match t.key {
        TextureKey::SolidColor => t.solid_color is Some && solid_color::wf_solid(t.solid_color->0),
        TextureKey::Checker => t.checker is Some && checker::wf_checker(t.checker->0),
        TextureKey::NoiseTexture => t.noise_texture is Some && noise_texture::wf_noise(t.noise_texture->0),
        TextureKey::ImageTexture => t.image_texture is Some && image_texture::wf_image(t.image_texture->0),
    }
}

/// A texture whose channels never exceed one unit, fit to attenuate
/// radiance without amplifying it.
pub open spec fn texture_unit(t: TextureStruct) -> bool
    decreases t, 0int,
{
    match t.key {
        TextureKey::SolidColor => t.solid_color is Some ==> in_bounds(t.solid_color->0.color_value, 1024),
        TextureKey::Checker => t.checker is Some ==> checker::checker_unit(t.checker->0),
        _ => true,
    }
}

/// The color of a texture at surface coordinates `(u, v)` and point `p`.
pub open spec fn texture_value_s(t: TextureStruct, u: int, v: int, p: Point3) -> Color
    decreases t, 1int,
{
    match t.key {
        TextureKey::SolidColor => if t.solid_color is Some {
            t.solid_color->0.color_value
        } else {
            Vec3 { x: 0i64, y: 0i64, z: 0i64 }
        },
        TextureKey::Checker => if t.checker is Some {
            checker::checker_value_s(t.checker->0, u, v, p)
        } else {
            Vec3 { x: 0i64, y: 0i64, z: 0i64 }
        },
        TextureKey::NoiseTexture => if t.noise_texture is Some {
            noise_texture::noise_value_s(t.noise_texture->0, p)
        } else {
            Vec3 { x: 0i64, y: 0i64, z: 0i64 }
        },
        TextureKey::ImageTexture => if t.image_texture is Some {
            image_texture::image_value_s(t.image_texture->0, u, v)
        } else {
            Vec3 { x: 0i64, y: 0i64, z: 0i64 }
        },
    }
}

/// Every well-formed texture yields nonnegative channels within scene
/// bounds, and a unit texture stays within one unit.
pub proof fn lemma_texture_value_bounds(t: TextureStruct, u: int, v: int, p: Point3)
    requires
        wf_texture(t),
    ensures
        0 <= texture_value_s(t, u, v, p).x <= COORD_MAX,
        0 <= texture_value_s(t, u, v, p).y <= COORD_MAX,
        0 <= texture_value_s(t, u, v, p).z <= COORD_MAX,
        texture_unit(t) ==> in_bounds(texture_value_s(t, u, v, p), 1024),
    decreases t, 2int,
{
    match t.key {
        TextureKey::Checker => {
            if t.checker is Some {
                lemma_texture_value_bounds(*t.checker->0.odd, u, v, p);
                lemma_texture_value_bounds(*t.checker->0.even, u, v, p);
            }
        },
        TextureKey::NoiseTexture => {
            if t.noise_texture is Some {
                noise_texture::lemma_noise_value_bounds(t.noise_texture->0, p);
            }
        },
        TextureKey::ImageTexture => {
            if t.image_texture is Some {
                image_texture::lemma_image_value_bounds(t.image_texture->0, u, v);
            }
        },
        _ => {},
    }
}

impl TextureStruct {
    /// An empty holder for the given variant; the builder fills the
    /// matching slot afterwards.
    pub fn new(key: TextureKey) -> (r: TextureStruct)
        ensures
            r.key == key,
            r.solid_color is None,
            r.checker is None,
            r.noise_texture is None,
            r.image_texture is None,
    {
        TextureStruct {
            key,
            solid_color: None,
            checker: None,
            noise_texture: None,
            image_texture: None,
        }
    }

    /// Dispatch the color lookup to the variant named by the key.
    pub fn value(&self, u: i64, v: i64, p: &Point3) -> (r: Color)
        requires
            wf_texture(*self),
            in_bounds(*p, crate::fx::P_MAX as int),
        ensures
            r == texture_value_s(*self, u as int, v as int, *p),
            in_bounds(r, COORD_MAX as int),
            r.x >= 0 && r.y >= 0 && r.z >= 0,
            texture_unit(*self) ==> in_bounds(r, 1024),
        decreases *self,
    {
        proof {
            lemma_texture_value_bounds(*self, u as int, v as int, *p);
        }
        match self.key {
            TextureKey::SolidColor => self.solid_color.as_ref().unwrap().value(u, v, p),
            TextureKey::Checker => self.checker.as_ref().unwrap().value(u, v, p),
            TextureKey::NoiseTexture => self.noise_texture.as_ref().unwrap().value(u, v, p),
            TextureKey::ImageTexture => self.image_texture.as_ref().unwrap().value(u, v, p),
        }
    }
}

} // verus!
