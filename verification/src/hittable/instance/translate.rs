//! An object in another place.

use vstd::prelude::*;
use crate::basic::vec3::Vec3;

verus! {

/// An object moved by `offset`.
pub struct Translate<TH> {
    pub obj: TH,
    pub offset: Vec3,
}

impl<TH> Translate<TH> {
    pub fn new(obj: TH, offset: Vec3) -> (r: Self)
        ensures
            r.obj == obj,
            r.offset == offset,
    {
        Self { obj, offset }
    }
}

} // verus!
