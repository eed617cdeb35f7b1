//! Two textures in a checkerboard.

use vstd::prelude::*;
use crate::basic::Scalar;

verus! {

/// Which of the two textures of a checkerboard shows at a point.
#[derive(Copy, Clone, Debug, PartialEq, Eq, Structural)]
pub enum Field {
    Odd,
    Even,
}

/// A checkerboard in space: fields of `odd` and `even`, of a size set by `scale`.
pub struct Checker<TT1, TT2> {
    pub odd: TT1,
    pub even: TT2,
    pub scale: Scalar,
}

impl<TT1, TT2> Checker<TT1, TT2> {
    pub fn new(odd: TT1, even: TT2, scale: Scalar) -> (r: Self)
        ensures
            r.odd == odd,
            r.even == even,
            r.scale == scale,
    {
        Self { odd, even, scale }
    }

    /// Which texture shows at a point. `sines` is the product of the sines
    /// of the point's three coordinates, each times `scale`: the field is even
    /// where it is positive.
    pub fn value(&self, sines: Scalar) -> (r: Field)
        ensures
            r == if sines > 0 {
                Field::Even
            } else {
                Field::Odd
            },
    {
        if sines > 0 {
            Field::Even
        } else {
            Field::Odd
        }
    }
}

} // verus!
