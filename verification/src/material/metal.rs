//! Metals: surfaces that mirror light, more or less sharply.

use vstd::prelude::*;
use super::ScatterRecord;
use crate::basic::ray::Ray;
use crate::basic::vec3::{Point3, RGBColor, Vec3};
use crate::basic::{clamp_oi, clamped, Scalar, ONE};
use crate::pdf::cos_pdf::CosinePDF;
use crate::pdf::cos_pdf::floored;

verus! {

/// The ordinal of one quarter: the share of rays that a coloured metal mirrors.
pub const MIRRORED: Scalar = 0x3FD0_0000_0000_0000;

/// A metal, by the share of each colour that it mirrors and by its fuzz:
/// zero for a perfect mirror, up to one for a dull one.
#[derive(Copy, Clone, Debug, PartialEq, Eq, Structural)]
pub struct Metal {
    pub albedo: RGBColor,
    pub fuzz: Scalar,
}

impl Metal {
    /// The metal of the given colour; its fuzz is `f`, brought into zero to one.
    pub fn new(albedo: RGBColor, f: Scalar) -> (r: Self)
        ensures
            r.albedo == albedo,
            r.fuzz == clamped(f as int, 0, ONE as int),
            0 <= r.fuzz <= ONE,
    {
        Self { albedo, fuzz: clamp_oi(f, 0, ONE) }
    }

    /// Scatters a ray cast at instant `tm` that hit at `p`. `scattered` is
    /// its mirrored direction, fuzz added; `above` is the dot product of that
    /// with the surface normal. A ray that would go on below the surface is
    /// swallowed.
    pub fn scatter(&self, p: Point3, tm: Scalar, scattered: Vec3, above: Scalar) -> (r: Option<ScatterRecord>)
        ensures
            r == if above > 0 {
                Some(ScatterRecord::specular(Ray { orig: p, dir: scattered, tm }, self.albedo))
            } else {
                None
            },
    {
        if above > 0 {
            Some(ScatterRecord::new_specular(Ray::new(p, scattered, tm), self.albedo))
        } else {
            None
        }
    }
}

/// A metal under a coat of paint: one ray in four is mirrored, the others
/// are scattered as a matt surface of texture `tex` scatters them.
pub struct ColoredMetal<TT> {
    pub albedo: RGBColor,
    pub fuzz: Scalar,
    pub tex: TT,
}

impl<TT> ColoredMetal<TT> {
    /// The coloured metal; its fuzz is `f`, brought into zero to one.
    pub fn new(albedo: RGBColor, f: Scalar, tex: TT) -> (r: Self)
        ensures
            r.albedo == albedo,
            r.fuzz == clamped(f as int, 0, ONE as int),
            r.tex == tex,
    {
        Self { albedo, fuzz: clamp_oi(f, 0, ONE), tex }
    }

    /// Scatters a ray cast at instant `tm` that hit at `p`. `draw` is a
    /// number drawn evenly from zero up to one: below [`MIRRORED`] the ray
    /// is mirrored along `scattered`, else it goes on in a direction to be
    /// drawn from `pdf`, with the colour `paint` of the texture at `p`.
    pub fn scatter(&self, p: Point3, tm: Scalar, draw: Scalar, scattered: Vec3, pdf: CosinePDF, paint: RGBColor) -> (r: Option<ScatterRecord>)
        ensures
            r == Some(
                if draw < MIRRORED {
                    ScatterRecord::specular(Ray { orig: p, dir: scattered, tm }, self.albedo)
                } else {
                    ScatterRecord::diffuse(pdf, paint)
                },
            ),
    {
        if draw < MIRRORED {
            Some(ScatterRecord::new_specular(Ray::new(p, scattered, tm), self.albedo))
        } else {
            Some(ScatterRecord::new_not_specular(pdf, paint))
        }
    }

    /// The density with which the paint scatters into a direction, from
    /// the cosine of its angle to the normal divided by pi: that number, and
    /// zero where it is negative.
    pub fn scattering_pdf(&self, cosine_over_pi: Scalar) -> (r: Scalar)
        ensures
            r == floored(cosine_over_pi),
    {
        if cosine_over_pi < 0 {
            0
        } else {
            cosine_over_pi
        }
    }
}

} // verus!
