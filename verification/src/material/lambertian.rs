//! Matt surfaces.

use vstd::prelude::*;
use super::ScatterRecord;
use crate::basic::vec3::RGBColor;
use crate::basic::Scalar;
use crate::pdf::cos_pdf::{floored, CosinePDF};
use crate::texture::solid_color::SolidColor;

verus! {

/// A matt surface, coloured by the texture `albedo`.
pub struct Lambertian<TT> {
    pub albedo: TT,
}

impl<TT> Lambertian<TT> {
    pub fn new(albedo: TT) -> (r: Self)
        ensures
            r.albedo == albedo,
    {
        Self { albedo }
    }

    /// Scatters a ray: always, in a direction to be drawn from `pdf`, the
    /// cosine-weighted density about the normal at the hit, and with
    /// `attenuation`, the colour of the texture there.
    pub fn scatter(&self, pdf: CosinePDF, attenuation: RGBColor) -> (r: Option<ScatterRecord>)
        ensures
            r == Some(ScatterRecord::diffuse(pdf, attenuation)),
    {
        Some(ScatterRecord::new_not_specular(pdf, attenuation))
    }

    /// The density with which the surface scatters into a direction, from
    /// the cosine of its angle to the normal divided by pi: that number, and
    /// zero where it is negative.
    pub fn scattering_pdf(&self, cosine_over_pi: Scalar) -> (r: Scalar)
        ensures
            r == floored(cosine_over_pi),
            r >= 0,
    {
        if cosine_over_pi < 0 {
            0
        } else {
            cosine_over_pi
        }
    }
}

impl Lambertian<SolidColor> {
    /// The matt surface of one colour.
    pub fn new_from_color(color_value: RGBColor) -> (r: Self)
        ensures
            r.albedo.color_value == color_value,
    {
        Self { albedo: SolidColor::new(color_value) }
    }
}

} // verus!
