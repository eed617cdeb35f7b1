//! Densities of directions, to draw the next ray of a path from.

use vstd::prelude::*;
use crate::basic::Scalar;
use self::cos_pdf::CosinePDF;
use self::hittable_pdf::HittablePDF;

pub mod cos_pdf;
pub mod hittable_pdf;

verus! {

/// The ordinal of one half: the share of the surface's own density in a mixture.
pub const MIXING: Scalar = 0x3FE0_0000_0000_0000;

/// Which part of a mixture a direction is drawn from.
#[derive(Copy, Clone, Debug, PartialEq, Eq, Structural)]
pub enum Pick {
    /// The surface's own density.
    Scatter,
    /// The density towards the lights.
    Light,
}

/// The mixture of a surface's own density with that towards the lights, in
/// equal shares.
pub struct MixedPDF<'a, TH> {
    pub scatter_pdf: CosinePDF,
    pub light_pdf: HittablePDF<'a, TH>,
}

impl<'a, TH> MixedPDF<'a, TH> {
    pub fn new(scatter_pdf: CosinePDF, light_pdf: HittablePDF<'a, TH>) -> (r: Self)
        ensures
            r.scatter_pdf == scatter_pdf,
            r.light_pdf == light_pdf,
    {
        Self { scatter_pdf, light_pdf }
    }

    /// Which part the next direction is drawn from. `coin` is a number
    /// drawn evenly from zero up to one: below [`MIXING`] it falls on the
    /// surface's own density, else on that towards the lights.
    pub fn generate(&self, coin: Scalar) -> (r: Pick)
        ensures
            r == if coin < MIXING {
                Pick::Scatter
            } else {
                Pick::Light
            },
    {
        if coin < MIXING {
            Pick::Scatter
        } else {
            Pick::Light
        }
    }
}

} // verus!
