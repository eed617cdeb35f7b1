//! Orthonormal bases.

use vstd::prelude::*;
use super::vec3::Vec3;

verus! {

/// Three unit vectors at right angles to one another.
#[derive(Copy, Clone, Debug, PartialEq, Eq, Structural)]
pub struct ONB {
    pub u: Vec3,
    pub v: Vec3,
    /// The vector that the basis was built around.
    pub w: Vec3,
}

impl ONB {
    /// The basis that `u`, `v` and `w` make.
    pub fn new(u: Vec3, v: Vec3, w: Vec3) -> (r: Self)
        ensures
            r == (ONB { u, v, w }),
    {
        ONB { u, v, w }
    }

    /// The vector that the basis was built around.
    pub fn w(&self) -> (r: Vec3)
        ensures
            r == self.w,
    {
        self.w
    }
}

} // verus!
