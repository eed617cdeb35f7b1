//! Triangles.

use vstd::prelude::*;
use crate::basic::vec3::{Point3, Vec3};
use crate::basic::{max_f64, min_f64, Scalar, ONE};
use crate::bvh::aabb::AABB;
use crate::hittable::{in_range, within};

verus! {

/// A triangle, by its three corners, with what is worked out from them
/// once: its unit normal, its centre and its area, the two vectors `v` and `w`
/// that give the coordinates of a point of its plane with respect to its
/// sides, and the sides `ab` and `ac` themselves.
pub struct Triangle<TM> {
    pub ver: [Point3; 3],
    pub normal: Vec3,
    pub mat: TM,
    pub cen: Point3,
    pub area: Scalar,
    pub v: Vec3,
    pub w: Vec3,
    pub ab: Vec3,
    pub ac: Vec3,
}

/// Whether a coordinate of a point with respect to a triangle lies within
/// it: from zero up to, not including, one.
pub open spec fn inside(coordinate: Scalar) -> bool {
    0 <= coordinate < ONE
}

/// The least of three.
pub open spec fn least(a: Scalar, b: Scalar, c: Scalar) -> Scalar {
    if a <= b && a <= c {
        a
    } else if b <= c {
        b
    } else {
        c
    }
}

/// The greatest of three.
pub open spec fn greatest(a: Scalar, b: Scalar, c: Scalar) -> Scalar {
    if a >= b && a >= c {
        a
    } else if b >= c {
        b
    } else {
        c
    }
}

impl<TM> Triangle<TM> {
    /// Decides a hit. The ray meets the triangle's plane at parameter `t`,
    /// in the point with coordinates `alpha`, `beta` and `gamma` with respect
    /// to the three corners. It hits where `t` lies between `t_min` and `t_max`
    /// and all three coordinates lie within the triangle.
    pub fn hit(&self, t: Option<Scalar>, alpha: Scalar, beta: Scalar, gamma: Scalar, t_min: Scalar, t_max: Scalar) -> (r: bool)
        ensures
            r == (in_range(t, t_min, t_max) && inside(gamma) && inside(beta) && inside(alpha)),
    {
        if !within(t, t_min, t_max) {
            return false;
        }
        if gamma >= 0 && gamma < ONE {
            if beta >= 0 && beta < ONE {
                if alpha >= 0 && alpha < ONE {
                    return true;
                }
            }
        }
        false
    }

    /// The box of the triangle: from the least to the greatest coordinate
    /// of its corners, along every axis.
    pub fn bounding_box(&self) -> (r: Option<AABB>)
        ensures
            r matches Some(b) && forall|axis: int|
                0 <= axis < 3 ==> b.min.axis(axis) == least(
                    self.ver[0].axis(axis),
                    self.ver[1].axis(axis),
                    self.ver[2].axis(axis),
                ) && b.max.axis(axis) == greatest(
                    self.ver[0].axis(axis),
                    self.ver[1].axis(axis),
                    self.ver[2].axis(axis),
                ),
            r matches Some(b) && b.wf() && b.contains(self.ver[0]) && b.contains(self.ver[1])
                && b.contains(self.ver[2]),
    {
        let a = self.ver[0];
        let b = self.ver[1];
        let c = self.ver[2];
        let min = Point3::new(
            min_f64(min_f64(a.x, b.x), c.x),
            min_f64(min_f64(a.y, b.y), c.y),
            min_f64(min_f64(a.z, b.z), c.z),
        );
        let max = Point3::new(
            max_f64(max_f64(a.x, b.x), c.x),
            max_f64(max_f64(a.y, b.y), c.y),
            max_f64(max_f64(a.z, b.z), c.z),
        );
        Some(AABB::new(min, max))
    }
}

} // verus!
