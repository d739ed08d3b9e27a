//! The 3-D checker pattern: a spatial sign pattern selecting between two
//! child textures.

use vstd::prelude::*;
use crate::fx::{fdiv64, P_MAX};
use crate::vec3::{Color, Point3, in_bounds};
use crate::texture::{TextureStruct, wf_texture, texture_unit, texture_value_s};

verus! {

/// Two child textures selected by the sign of
/// `sin(10 x) sin(10 y) sin(10 z)`: the sign is negative exactly when the
/// three half-wave cell indices `floor(10 c / pi)` have odd sum.
#[derive(Debug)]
pub struct Checker {
    pub odd: Box<TextureStruct>,
    pub even: Box<TextureStruct>,
}

pub open spec fn wf_checker(c: Checker) -> bool
    decreases c, 0int,
{
    &&& wf_texture(*c.odd)
    &&& wf_texture(*c.even)
}

pub open spec fn checker_unit(c: Checker) -> bool
    decreases c, 0int,
{
    &&& texture_unit(*c.odd)
    &&& texture_unit(*c.even)
}

/// The parity of the sum of the three half-wave cell indices: odd parity
/// is where the product of the three sines is negative.
pub open spec fn checker_odd_cell(p: Point3) -> bool {
    let cx = (10 * p.x) / 3217;
    let cy = (10 * p.y) / 3217;
    let cz = (10 * p.z) / 3217;
    (cx + cy + cz) % 2 == 1
}

pub open spec fn checker_value_s(c: Checker, u: int, v: int, p: Point3) -> Color
    decreases c, 1int,
{
    if checker_odd_cell(p) {
        texture_value_s(*c.odd, u, v, p)
    } else {
        texture_value_s(*c.even, u, v, p)
    }
}

impl Checker {
    pub fn new(odd: TextureStruct, even: TextureStruct) -> (r: Checker)
        ensures
            *r.odd == odd,
            *r.even == even,
    {
        Checker { odd: Box::new(odd), even: Box::new(even) }
    }

    pub fn value(&self, u: i64, v: i64, p: &Point3) -> (r: Color)
        requires
            wf_checker(*self),
            in_bounds(*p, P_MAX as int),
        ensures
            r == checker_value_s(*self, u as int, v as int, *p),
        decreases *self,
    {
        let cx = fdiv64(10 * p.x, 3217);
        let cy = fdiv64(10 * p.y, 3217);
        let cz = fdiv64(10 * p.z, 3217);
        let parity = crate::fx::emod64(cx + cy + cz, 2);
        if parity == 1 {
            self.odd.value(u, v, p)
        } else {
            self.even.value(u, v, p)
        }
    }
}

} // verus!
