//! Constant-color textures.

use vstd::prelude::*;
use crate::fx::COORD_MAX;
use crate::vec3::{Color, Point3, in_bounds};

verus! {

/// A constant color, independent of position and surface coordinates.
#[derive(Clone, Debug)]
pub struct SolidColor {
    pub color_value: Color,
}

/// Channels are nonnegative and within scene bounds.
pub open spec fn wf_solid(s: SolidColor) -> bool {
    &&& in_bounds(s.color_value, COORD_MAX as int)
    &&& s.color_value.x >= 0
    &&& s.color_value.y >= 0
    &&& s.color_value.z >= 0
}

impl SolidColor {
    pub fn new(color_value: &Color) -> (r: SolidColor)
        ensures
            r.color_value == *color_value,
    {
        SolidColor { color_value: *color_value }
    }

    pub fn value(&self, _u: i64, _v: i64, _p: &Point3) -> (r: Color)
        ensures
            r == self.color_value,
    {
        self.color_value
    }
}

} // verus!
