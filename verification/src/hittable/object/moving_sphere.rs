//! Spheres on the move.

use vstd::prelude::*;
use super::sphere::nearest_root;
use crate::basic::vec3::{Point3, Vec3};
use crate::basic::Scalar;
use crate::bvh::aabb::AABB;
use crate::hittable::within;

verus! {

/// A sphere that moves evenly: from `cen` at instant `tm` by `mov` within
/// the time `dur`.
pub struct MovingSphere<TM> {
    pub cen: Point3,
    pub mov: Vec3,
    pub tm: Scalar,
    pub dur: Scalar,
    pub r: Scalar,
    pub mat: TM,
}

impl<TM> MovingSphere<TM> {
    /// The sphere of radius `r` that is at `cen` at instant `tm` and moves
    /// by `mov` within the time `dur`.
    pub fn new(cen: Point3, mov: Vec3, tm: Scalar, dur: Scalar, r: Scalar, mat: TM) -> (s: Self)
        ensures
            s.cen == cen,
            s.mov == mov,
            s.tm == tm,
            s.dur == dur,
            s.r == r,
            s.mat == mat,
    {
        Self { cen, mov, tm, dur, r, mat }
    }

    /// Decides a hit as [`super::sphere::Sphere::hit`] does, for the sphere
    /// where it is at the instant of the ray.
    pub fn hit(&self, discriminant: Scalar, near: Option<Scalar>, far: Option<Scalar>, t_min: Scalar, t_max: Scalar) -> (root: Option<Scalar>)
        ensures
            root == nearest_root(discriminant, near, far, t_min, t_max),
    {
        if discriminant <= 0 {
            return None;
        }
        if within(near, t_min, t_max) {
            near
        } else if within(far, t_min, t_max) {
            far
        } else {
            None
        }
    }

    /// The box of the sphere over a span of time, from its box at the
    /// beginning and its box at the end: the box around both.
    pub fn bounding_box(&self, at_begin: &AABB, at_end: &AABB) -> (r: Option<AABB>)
        ensures
            r == Some(at_begin.union(*at_end)),
    {
        Some(AABB::surrounding_box(at_begin, at_end))
    }
}

} // verus!
