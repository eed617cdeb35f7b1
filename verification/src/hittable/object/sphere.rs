//! Spheres.

use vstd::prelude::*;
use crate::basic::vec3::Point3;
use crate::basic::Scalar;
use crate::hittable::{in_range, within};

verus! {

/// A sphere, by its centre and its radius.
pub struct Sphere<TM> {
    pub cen: Point3,
    pub r: Scalar,
    pub mat: TM,
}

/// The parameter at which a ray hits a sphere, from the discriminant of
/// the equation of their meeting and its two roots, `near` the smaller.
///
/// With a discriminant that is not positive the ray misses. Else it hits at
/// the smaller root where that lies between `t_min` and `t_max`, at the
/// larger one where only that does, and not at all where neither does.
pub open spec fn nearest_root(
    discriminant: Scalar,
    near: Option<Scalar>,
    far: Option<Scalar>,
    t_min: Scalar,
    t_max: Scalar,
) -> Option<Scalar> {
    if discriminant <= 0 {
        None
    } else if in_range(near, t_min, t_max) {
        near
    } else if in_range(far, t_min, t_max) {
        far
    } else {
        None
    }
}

impl<TM> Sphere<TM> {
    pub fn new(cen: Point3, r: Scalar, mat: TM) -> (s: Self)
        ensures
            s.cen == cen,
            s.r == r,
            s.mat == mat,
    {
        Self { cen, r, mat }
    }

    /// Decides a hit: the parameter at which the ray hits the sphere, if
    /// it does. `discriminant` is that of the equation of their meeting,
    /// `near` and `far` are its roots; a root is `None` where it is not a
    /// number.
    pub fn hit(&self, discriminant: Scalar, near: Option<Scalar>, far: Option<Scalar>, t_min: Scalar, t_max: Scalar) -> (root: Option<Scalar>)
        ensures
            root == nearest_root(discriminant, near, far, t_min, t_max),
    {
        if discriminant <= 0 {
            return None;
        }
        if within(near, t_min, t_max) {
            near
        } else if within(far, t_min, t_max) {
            far
        } else {
            None
        }
    }
}

/// A hit lies in the range asked for, at one of the two roots, and at the
/// larger one only where the smaller is out of range.
pub proof fn lemma_nearest_root(
    discriminant: Scalar,
    near: Option<Scalar>,
    far: Option<Scalar>,
    t_min: Scalar,
    t_max: Scalar,
)
    ensures
        nearest_root(discriminant, near, far, t_min, t_max) matches Some(t) ==> t_min <= t <= t_max
            && discriminant > 0 && (near == Some(t) || (far == Some(t) && !in_range(
            near,
            t_min,
            t_max,
        ))),
        nearest_root(discriminant, near, far, t_min, t_max) is None ==> discriminant <= 0
            || (!in_range(near, t_min, t_max) && !in_range(far, t_min, t_max)),
{
}

} // verus!
