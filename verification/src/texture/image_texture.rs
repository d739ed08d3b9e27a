//! Raster textures: nearest, clamped lookups into decoded pixel data.

use vstd::prelude::*;
use crate::fx::{tdiv, tdiv64, imin, imax, lemma_tdiv_range, lemma_tdiv_ordered, lemma_mul_bound};
use crate::vec3::{Vec3, Color};

verus! {

/// Decoded raster data: rows of gamma-encoded RGB byte triples, top row
/// first. A texture whose data does not match its dimensions stands for
/// a failed load and yields a fixed debug color.
#[derive(Clone, Debug)]
pub struct ImageTexture {
    pub data: Vec<u8>,
    pub width: usize,
    pub height: usize,
}

pub open spec fn wf_image(t: ImageTexture) -> bool {
    &&& 1 <= t.width <= 4096
    &&& 1 <= t.height <= 4096
}

/// Whether the data matches the dimensions; a mismatch is a failed load.
pub open spec fn image_loaded(t: ImageTexture) -> bool {
    t.data@.len() == 3 * t.width * t.height
}

/// A surface coordinate clamped into [0, FX_ONE].
pub open spec fn clamp_uv_s(c: int) -> int {
    imax(0, imin(c, 1024))
}

/// A stored byte gamma-decoded into fixed point: the normalized byte
/// squared, inverting the display gamma the raster was encoded with.
pub open spec fn gamma_decode_s(b: int) -> int {
    let lin = tdiv(b * 1024, 255);
    tdiv(lin * lin, 1024)
}

/// The nearest pixel under `(u, v)` clamped into [0, 1], `v` inverted so
/// `v = 0` is the bottom row; channels gamma-decoded from the stored
/// bytes. A failed load yields cyan.
pub open spec fn image_value_s(t: ImageTexture, u: int, v: int) -> Color {
    if !image_loaded(t) {
        Vec3 { x: 0i64, y: 1024i64, z: 1024i64 }
    } else {
        let uc = clamp_uv_s(u);
        let vc = clamp_uv_s(v);
        let i = imin(tdiv(uc * t.width, 1024), t.width - 1);
        let j = imin(tdiv((1024 - vc) * t.height, 1024), t.height - 1);
        let idx = 3 * (j * t.width + i);
        Vec3 {
            x: gamma_decode_s(t.data@[idx] as int) as i64,
            y: gamma_decode_s(t.data@[idx + 1] as int) as i64,
            z: gamma_decode_s(t.data@[idx + 2] as int) as i64,
        }
    }
}

/// A decoded channel lies within one fixed-point unit.
pub proof fn lemma_gamma_decode_range(b: int)
    requires
        0 <= b <= 255,
    ensures
        0 <= gamma_decode_s(b) <= 1024,
{
    lemma_tdiv_range(b * 1024, 255);
    lemma_tdiv_ordered(b * 1024, 255int * 1024, 255);
    vstd::arithmetic::div_mod::lemma_div_by_multiple(1024, 255);
    let lin = tdiv(b * 1024, 255);
    assert(0 <= lin * lin <= 1048576) by (nonlinear_arith)
        requires
            0 <= lin <= 1024,
    {
    }
    lemma_tdiv_range(lin * lin, 1024);
    lemma_tdiv_ordered(lin * lin, 1048576, 1024);
    vstd::arithmetic::div_mod::lemma_div_by_multiple(1024, 1024);
}

pub proof fn lemma_image_value_bounds(t: ImageTexture, u: int, v: int)
    requires
        wf_image(t),
    ensures
        0 <= image_value_s(t, u, v).x <= 1024,
        0 <= image_value_s(t, u, v).y <= 1024,
        0 <= image_value_s(t, u, v).z <= 1024,
{
    if image_loaded(t) {
        let uc = clamp_uv_s(u);
        let vc = clamp_uv_s(v);
        let i = imin(tdiv(uc * t.width, 1024), t.width as int - 1);
        let j = imin(tdiv((1024 - vc) * t.height, 1024), t.height as int - 1);
        let idx = 3 * (j * t.width + i);
        lemma_pixel_index(t, u, v);
        lemma_gamma_decode_range(t.data@[idx] as int);
        lemma_gamma_decode_range(t.data@[idx + 1] as int);
        lemma_gamma_decode_range(t.data@[idx + 2] as int);
    }
}

/// The chosen pixel indices lie inside the raster.
pub proof fn lemma_pixel_index(t: ImageTexture, u: int, v: int)
    requires
        wf_image(t),
        image_loaded(t),
    ensures
        ({
            let uc = clamp_uv_s(u);
            let vc = clamp_uv_s(v);
            let i = imin(tdiv(uc * t.width, 1024), t.width as int - 1);
            let j = imin(tdiv((1024 - vc) * t.height, 1024), t.height as int - 1);
            0 <= i < t.width && 0 <= j < t.height
                && 0 <= 3 * (j * t.width + i) && 3 * (j * t.width + i) + 2 < t.data@.len()
        }),
{
    let uc = clamp_uv_s(u);
    let vc = clamp_uv_s(v);
    let i = imin(tdiv(uc * t.width, 1024), t.width as int - 1);
    let j = imin(tdiv((1024 - vc) * t.height, 1024), t.height as int - 1);
    assert(0 <= uc * t.width && 0 <= (1024 - vc) * t.height) by (nonlinear_arith)
        requires
            0 <= uc <= 1024,
            0 <= vc <= 1024,
            t.width >= 1,
            t.height >= 1,
    {
    }
    lemma_tdiv_range(uc * t.width, 1024);
    lemma_tdiv_range((1024 - vc) * t.height, 1024);
    assert(3 * (j * t.width + i) + 2 < 3 * t.width * t.height) by (nonlinear_arith)
        requires
            0 <= i < t.width,
            0 <= j < t.height,
    {
    }
}

impl ImageTexture {
    pub fn new(data: Vec<u8>, width: usize, height: usize) -> (r: ImageTexture)
        ensures
            r.data == data,
            r.width == width,
            r.height == height,
    {
        ImageTexture { data, width, height }
    }

    /// The clamped, nearest-pixel, gamma-decoded lookup.
    pub fn value(&self, u: i64, v: i64, _p: &crate::vec3::Point3) -> (r: Color)
        requires
            wf_image(*self),
        ensures
            r == image_value_s(*self, u as int, v as int),
    {
        proof {
            assert(3 * self.width * self.height <= 0x3000000) by (nonlinear_arith)
                requires
                    1 <= self.width <= 4096,
                    1 <= self.height <= 4096,
            {
            }
        }
        let wanted: usize = 3 * self.width * self.height;
        if self.data.len() != wanted {
            return Vec3 { x: 0, y: 1024, z: 1024 };
        }
        let uc = if u < 0 { 0 } else if u > 1024 { 1024 } else { u };
        let vc = if v < 0 { 0 } else if v > 1024 { 1024 } else { v };
        proof {
            lemma_pixel_index(*self, u as int, v as int);
            lemma_mul_bound(uc as int, self.width as int, 1024, 4096);
            lemma_mul_bound(1024 - vc as int, self.height as int, 1024, 4096);
            lemma_tdiv_range(uc as int * self.width as int, 1024);
            lemma_tdiv_range((1024 - vc as int) * self.height as int, 1024);
        }
        let i0 = tdiv64(uc * (self.width as i64), 1024);
        let j0 = tdiv64((1024 - vc) * (self.height as i64), 1024);
        let i = if i0 <= (self.width as i64) - 1 { i0 } else { (self.width as i64) - 1 };
        let j = if j0 <= (self.height as i64) - 1 { j0 } else { (self.height as i64) - 1 };
        let idx: usize = 3 * ((j as usize) * self.width + (i as usize));
        let pr = self.data[idx];
        let pg = self.data[idx + 1];
        let pb = self.data[idx + 2];
        proof {
            lemma_gamma_decode_range(pr as int);
            lemma_gamma_decode_range(pg as int);
            lemma_gamma_decode_range(pb as int);
            lemma_tdiv_range(pr as int * 1024, 255);
            lemma_tdiv_range(pg as int * 1024, 255);
            lemma_tdiv_range(pb as int * 1024, 255);
            lemma_tdiv_ordered(pr as int * 1024, 255int * 1024, 255);
            lemma_tdiv_ordered(pg as int * 1024, 255int * 1024, 255);
            lemma_tdiv_ordered(pb as int * 1024, 255int * 1024, 255);
            vstd::arithmetic::div_mod::lemma_div_by_multiple(1024, 255);
        }
        let lr = tdiv64((pr as i64) * 1024, 255);
        let lg = tdiv64((pg as i64) * 1024, 255);
        let lb = tdiv64((pb as i64) * 1024, 255);
        proof {
            lemma_mul_bound(lr as int, lr as int, 1024, 1024);
            lemma_mul_bound(lg as int, lg as int, 1024, 1024);
            lemma_mul_bound(lb as int, lb as int, 1024, 1024);
            lemma_tdiv_range(lr as int * lr as int, 1024);
            lemma_tdiv_range(lg as int * lg as int, 1024);
            lemma_tdiv_range(lb as int * lb as int, 1024);
        }
        Vec3 {
            x: tdiv64(lr * lr, 1024),
            y: tdiv64(lg * lg, 1024),
            z: tdiv64(lb * lb, 1024),
        }
    }
}

} // verus!
