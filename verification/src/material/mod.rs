//! Materials: what a surface does with a ray that hits it.

use vstd::prelude::*;
use crate::basic::ray::Ray;
use crate::basic::vec3::RGBColor;
use crate::pdf::cos_pdf::CosinePDF;

pub mod dielectric;
pub mod diffuse_light;
pub mod isotropic;
pub mod lambertian;
pub mod metal;

verus! {

/// How a scattered ray goes on.
#[derive(Copy, Clone, Debug, PartialEq, Eq, Structural)]
pub enum ScaRecData {
    /// Along this one ray, as a mirror or a glass sends it.
    Specular(Ray),
    /// In a direction to be drawn from this density.
    Pdf(CosinePDF),
}

/// What a surface made of a ray: how it goes on, and how much of each
/// colour is left of it.
#[derive(Copy, Clone, Debug, PartialEq, Eq, Structural)]
pub struct ScatterRecord {
    pub dat: ScaRecData,
    pub attenuation: RGBColor,
}

impl ScatterRecord {
    /// The record of a ray that goes on along `ray`.
    pub open spec fn specular(ray: Ray, attenuation: RGBColor) -> ScatterRecord {
        ScatterRecord { dat: ScaRecData::Specular(ray), attenuation }
    }

    /// The record of a ray that goes on in a direction to be drawn from `pdf`.
    pub open spec fn diffuse(pdf: CosinePDF, attenuation: RGBColor) -> ScatterRecord {
        ScatterRecord { dat: ScaRecData::Pdf(pdf), attenuation }
    }

    pub fn new_specular(ray: Ray, attenuation: RGBColor) -> (r: Self)
        ensures
            r == Self::specular(ray, attenuation),
    {
        Self { dat: ScaRecData::Specular(ray), attenuation }
    }

    pub fn new_not_specular(pdf: CosinePDF, attenuation: RGBColor) -> (r: Self)
        ensures
            r == Self::diffuse(pdf, attenuation),
    {
        Self { dat: ScaRecData::Pdf(pdf), attenuation }
    }
}

} // verus!
