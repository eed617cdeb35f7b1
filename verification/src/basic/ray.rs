//! Rays.

use vstd::prelude::*;
use super::vec3::{Point3, Vec3};
use super::Scalar;

verus! {

/// A ray: where it starts, where it heads, and the instant at which it is cast.
#[derive(Copy, Clone, Debug, PartialEq, Eq, Structural)]
pub struct Ray {
    pub orig: Point3,
    pub dir: Vec3,
    pub tm: Scalar,
}

impl Ray {
    pub fn new(orig: Point3, dir: Vec3, tm: Scalar) -> (r: Self)
        ensures
            r == (Ray { orig, dir, tm }),
    {
        Self { orig, dir, tm }
    }
}

} // verus!
