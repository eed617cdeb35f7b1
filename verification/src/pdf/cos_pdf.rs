//! The cosine-weighted density about a normal.

use vstd::prelude::*;
use crate::basic::onb::ONB;
use crate::basic::Scalar;

verus! {

/// A density, floored at zero: a direction behind the surface has none.
pub open spec fn floored(density: Scalar) -> Scalar {
    if density < 0 {
        0
    } else {
        density
    }
}

/// The density of directions that falls off with the cosine of their angle
/// to the third vector of a basis.
#[derive(Copy, Clone, Debug, PartialEq, Eq, Structural)]
pub struct CosinePDF {
    pub uvw: ONB,
}

impl CosinePDF {
    /// The density about the third vector of `uvw`.
    pub fn new(uvw: ONB) -> (r: Self)
        ensures
            r.uvw == uvw,
    {
        Self { uvw }
    }

    /// The density of a direction, from the cosine of its angle to the
    /// normal divided by pi: that number, and zero where it is negative.
    pub fn value(&self, cosine_over_pi: Scalar) -> (r: Scalar)
        ensures
            r == floored(cosine_over_pi),
    {
        if cosine_over_pi < 0 {
            0
        } else {
            cosine_over_pi
        }
    }
}

} // verus!
