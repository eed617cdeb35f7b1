//! The density of directions towards an object.

use vstd::prelude::*;
use crate::basic::vec3::Point3;

verus! {

/// The density of the directions from `orig` towards `obj`.
pub struct HittablePDF<'a, TH> {
    pub orig: Point3,
    pub obj: &'a TH,
}

impl<'a, TH> HittablePDF<'a, TH> {
    pub fn new(orig: Point3, obj: &'a TH) -> (r: Self)
        ensures
            r.orig == orig,
            r.obj == obj,
    {
        Self { orig, obj }
    }
}

} // verus!
