//! Triples of scalars: points, directions and colours.

use vstd::prelude::*;
use super::{is_scalar, Scalar, INFINITESIMAL};

verus! {

/// A colour, by its red, green and blue parts.
pub type RGBColor = Vec3;

/// A point in space.
pub type Point3 = Vec3;

/// Three scalars: a point, a direction or a colour.
#[derive(Copy, Clone, Debug, PartialEq, Eq, Structural)]
pub struct Vec3 {
    pub x: Scalar,
    pub y: Scalar,
    pub z: Scalar,
}

impl Vec3 {
    /// Whether each part is the ordinal of a number.
    pub open spec fn wf(self) -> bool {
        is_scalar(self.x as int) && is_scalar(self.y as int) && is_scalar(self.z as int)
    }

    /// The part along axis `i`: 0 for x, 1 for y, anything else for z.
    pub open spec fn axis(self, i: int) -> Scalar {
        if i == 0 {
            self.x
        } else if i == 1 {
            self.y
        } else {
            self.z
        }
    }

    /// The negated vector.
    pub open spec fn negated(self) -> Vec3 {
        Vec3 { x: (-self.x) as Scalar, y: (-self.y) as Scalar, z: (-self.z) as Scalar }
    }

    pub fn new(x: Scalar, y: Scalar, z: Scalar) -> (r: Self)
        ensures
            r == (Vec3 { x, y, z }),
    {
        Self { x, y, z }
    }

    /// The part along axis `index`.
    pub fn index(&self, index: usize) -> (r: Scalar)
        requires
            index < 3,
        ensures
            r == self.axis(index as int),
    {
        if index == 0 {
            self.x
        } else if index == 1 {
            self.y
        } else {
            self.z
        }
    }

    /// Whether a scalar is smaller in magnitude than [`INFINITESIMAL`].
    fn tiny(x: Scalar) -> (r: bool)
        ensures
            r <==> -INFINITESIMAL < x < INFINITESIMAL,
    {
        -INFINITESIMAL < x && x < INFINITESIMAL
    }

    /// Whether every part is smaller in magnitude than [`INFINITESIMAL`].
    pub fn is_zero(&self) -> (r: bool)
        ensures
            r <==> (-INFINITESIMAL < self.x < INFINITESIMAL && -INFINITESIMAL < self.y
                < INFINITESIMAL && -INFINITESIMAL < self.z < INFINITESIMAL),
    {
        Self::tiny(self.x) && Self::tiny(self.y) && Self::tiny(self.z)
    }

    /// The vector that points the other way.
    pub fn neg(self) -> (r: Self)
        requires
            self.wf(),
        ensures
            r == self.negated(),
            r.wf(),
    {
        Self { x: -self.x, y: -self.y, z: -self.z }
    }
}

impl Default for Vec3 {
    /// The zero vector: the origin, and black.
    fn default() -> (r: Self)
        ensures
            r == (Vec3 { x: 0, y: 0, z: 0 }),
    {
        Self { x: 0, y: 0, z: 0 }
    }
}

} // verus!
