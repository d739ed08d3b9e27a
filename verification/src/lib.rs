//! A path-tracing renderer core: an axis-aligned-box acceleration structure
//! over a closed family of geometric primitives, surface materials and
//! textures, and the recursive integrator that ties them together.
//!
//! Every scalar the engine works with is a fixed-point number: an `i64`
//! counting 1/1024 units (see [`fx`]). Geometry, traversal and shading are
//! verified over that representation; sampling decisions that need entropy
//! draw it from an explicit [`rng::RandomSource`].

pub mod fx;
pub mod hittable;
pub mod material;
pub mod ray;
pub mod texture;
pub mod rng;
pub mod vec3;

use vstd::prelude::*;

verus! {

/// Degrees to fixed-point radians: `d * pi / 180`.
pub open spec fn deg2rad_s(d: int) -> int {
    crate::fx::tdiv(d * 3217, 184320)
}

pub fn degrees_to_radians(degrees: i64) -> (r: i64)
    requires
        -0x100000 <= degrees <= 0x100000,
    ensures
        r == deg2rad_s(degrees as int),
        -0x100000 <= r <= 0x100000,
{
    proof {
        crate::fx::lemma_mul_bound(degrees as int, 3217, 0x100000, 3217);
        crate::fx::lemma_tdiv_range(degrees as int * 3217, 184320);
        crate::fx::lemma_tdiv_ordered(degrees as int * 3217, 0x100000int * 3217, 184320);
        crate::fx::lemma_tdiv_ordered(-0x100000int * 3217, degrees as int * 3217, 184320);
        crate::fx::lemma_tdiv_range(0x100000int * 3217, 184320);
        crate::fx::lemma_tdiv_range(-0x100000int * 3217, 184320);
    }
    crate::fx::tdiv64(degrees * 3217, 184320)
}

} // verus!
