//! One colour everywhere.

use vstd::prelude::*;
use crate::basic::vec3::{Point3, RGBColor};
use crate::basic::Scalar;

verus! {

/// The texture of one colour.
#[derive(Copy, Clone, Debug, PartialEq, Eq, Structural)]
pub struct SolidColor {
    pub color_value: RGBColor,
}

impl SolidColor {
    pub fn new(color_value: RGBColor) -> (r: Self)
        ensures
            r.color_value == color_value,
    {
        Self { color_value }
    }

    pub fn new_from_value(r: Scalar, g: Scalar, b: Scalar) -> (s: Self)
        ensures
            s.color_value == (RGBColor { x: r, y: g, z: b }),
    {
        Self { color_value: RGBColor::new(r, g, b) }
    }

    /// The colour at surface coordinates `u`, `v` and point `p`: the one colour.
    pub fn value(&self, _u: Scalar, _v: Scalar, _p: Point3) -> (c: RGBColor)
        ensures
            c == self.color_value,
    {
        self.color_value
    }
}

} // verus!
