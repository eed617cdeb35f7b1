//! An object that moves while the picture is taken.

use vstd::prelude::*;
use crate::basic::vec3::Vec3;
use crate::basic::{Scalar, ONE};
use crate::bvh::aabb::AABB;

verus! {

/// An object that appears at instant `tm`, moves evenly by `mov` within the
/// time `dur`, and is gone after.
pub struct MotionTranslate<TH> {
    pub obj: TH,
    pub mov: Vec3,
    pub tm: Scalar,
    pub dur: Scalar,
}

impl<TH> MotionTranslate<TH> {
    pub fn new(obj: TH, mov: Vec3, tm: Scalar, dur: Scalar) -> (r: Self)
        ensures
            r.obj == obj,
            r.mov == mov,
            r.tm == tm,
            r.dur == dur,
    {
        Self { obj, mov, tm, dur }
    }

    /// Whether the object is there for a ray. `k` is the share of the
    /// motion that is over at the instant of the ray: the object is there
    /// from none of it to all of it.
    pub fn appears(&self, k: Scalar) -> (r: bool)
        ensures
            r == (0 <= k <= ONE),
    {
        !(k < 0 || k > ONE)
    }

    /// The box of the moving object, from its box where it begins and
    /// its box where it ends: the box around both.
    pub fn bounding_box(&self, obj_box: &AABB, moved_box: &AABB) -> (r: Option<AABB>)
        ensures
            r == Some(obj_box.union(*moved_box)),
    {
        Some(AABB::surrounding_box(obj_box, moved_box))
    }
}

} // verus!
