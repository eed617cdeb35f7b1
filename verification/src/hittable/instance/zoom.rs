//! An object at another size.

use vstd::prelude::*;
use crate::basic::vec3::Vec3;

verus! {

/// An object scaled about the origin, along each axis by the part of
/// `scale` there.
pub struct Zoom<TH> {
    pub obj: TH,
    pub scale: Vec3,
}

impl<TH> Zoom<TH> {
    pub fn new(obj: TH, scale: Vec3) -> (r: Self)
        ensures
            r.obj == obj,
            r.scale == scale,
    {
        Self { obj, scale }
    }
}

} // verus!
