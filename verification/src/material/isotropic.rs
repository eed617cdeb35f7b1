//! The material of fog and smoke.

use vstd::prelude::*;
use super::ScatterRecord;
use crate::basic::vec3::RGBColor;
use crate::basic::{Scalar, ONE};
use crate::pdf::cos_pdf::CosinePDF;
use crate::texture::solid_color::SolidColor;

verus! {

/// A material that scatters alike in all directions, coloured by the
/// texture `albedo`.
pub struct Isotropic<TT> {
    pub albedo: TT,
}

impl<TT> Isotropic<TT> {
    pub fn new(albedo: TT) -> (r: Self)
        ensures
            r.albedo == albedo,
    {
        Self { albedo }
    }

    /// Scatters a ray: always, in a direction to be drawn from `pdf`, the
    /// cosine-weighted density about an axis drawn at random, and with
    /// `attenuation`, the colour of the texture at the hit.
    pub fn scatter(&self, pdf: CosinePDF, attenuation: RGBColor) -> (r: Option<ScatterRecord>)
        ensures
            r == Some(ScatterRecord::diffuse(pdf, attenuation)),
    {
        Some(ScatterRecord::new_not_specular(pdf, attenuation))
    }

    /// The density with which the material scatters into a direction: one,
    /// whatever the direction.
    pub fn scattering_pdf(&self) -> (r: Scalar)
        ensures
            r == ONE,
    {
        ONE
    }
}

impl Isotropic<SolidColor> {
    /// The material of one colour.
    pub fn new_from_color(color_value: RGBColor) -> (r: Self)
        ensures
            r.albedo.color_value == color_value,
    {
        Self { albedo: SolidColor::new(color_value) }
    }
}

} // verus!
