//! Lights.

use vstd::prelude::*;
use crate::basic::vec3::RGBColor;
use crate::texture::solid_color::SolidColor;

verus! {

/// A surface that gives off light, coloured by the texture `emit`, and
/// scatters none.
pub struct DiffuseLight<TT> {
    pub emit: TT,
}

impl<TT> DiffuseLight<TT> {
    pub fn new(emit: TT) -> (r: Self)
        ensures
            r.emit == emit,
    {
        Self { emit }
    }

    /// The light given off where a ray hits: `value`, the colour of the
    /// texture there, on the front face, and none on the back.
    pub fn emitted(&self, front_face: bool, value: RGBColor) -> (c: RGBColor)
        ensures
            c == if front_face {
                value
            } else {
                RGBColor { x: 0, y: 0, z: 0 }
            },
    {
        if front_face {
            value
        } else {
            RGBColor::default()
        }
    }
}

impl DiffuseLight<SolidColor> {
    /// The light of one colour.
    pub fn new_from_color(color_value: RGBColor) -> (r: Self)
        ensures
            r.emit.color_value == color_value,
    {
        Self { emit: SolidColor::new(color_value) }
    }
}

} // verus!
