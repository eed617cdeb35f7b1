//! Glass and the like: surfaces that bend light or mirror it.

use vstd::prelude::*;
use super::ScatterRecord;
use crate::basic::ray::Ray;
use crate::basic::vec3::{Point3, RGBColor, Vec3};
use crate::basic::{Scalar, ONE};

verus! {

/// A clear material, by its index of refraction.
#[derive(Copy, Clone, Debug, PartialEq, Eq, Structural)]
pub struct Dielectric {
    pub ir: Scalar,
}

/// White: all of every colour.
pub open spec fn white() -> RGBColor {
    RGBColor { x: ONE, y: ONE, z: ONE }
}

impl Dielectric {
    pub fn new(ir: Scalar) -> (r: Self)
        ensures
            r.ir == ir,
    {
        Self { ir }
    }

    /// The ratio of the indices of refraction that a ray meets: the index
    /// for a ray that leaves the material, its inverse for one that enters
    /// through a front face.
    pub fn refraction_ratio(&self, front_face: bool, inverse: Scalar) -> (r: Scalar)
        ensures
            r == if front_face {
                inverse
            } else {
                self.ir
            },
    {
        if front_face {
            inverse
        } else {
            self.ir
        }
    }

    /// Whether light is mirrored rather than bent. `bend` is the ratio of
    /// refraction times the sine of the angle of incidence: above one, no
    /// bent ray exists. Else the ray is mirrored where the surface's
    /// `reflectance` at this angle exceeds `draw`, a number drawn evenly from
    /// zero up to one.
    pub open spec fn mirrors(bend: Scalar, reflectance: Scalar, draw: Scalar) -> bool {
        bend > ONE || reflectance > draw
    }

    /// Scatters a ray cast at instant `tm` that hit at `p`: along
    /// `reflected` where the surface mirrors it, else along `refracted`.
    /// Nothing is taken from the light.
    pub fn scatter(
        &self,
        p: Point3,
        tm: Scalar,
        bend: Scalar,
        reflectance: Scalar,
        draw: Scalar,
        reflected: Vec3,
        refracted: Vec3,
    ) -> (r: Option<ScatterRecord>)
        ensures
            r == Some(
                ScatterRecord::specular(
                    Ray {
                        orig: p,
                        dir: if Self::mirrors(bend, reflectance, draw) {
                            reflected
                        } else {
                            refracted
                        },
                        tm,
                    },
                    white(),
                ),
            ),
            r matches Some(rec) && rec.attenuation == white(),
    {
        let dir = if bend > ONE || reflectance > draw {
            reflected
        } else {
            refracted
        };
        Some(ScatterRecord::new_specular(Ray::new(p, dir, tm), RGBColor::new(ONE, ONE, ONE)))
    }
}

} // verus!
