//! An object turned about an axis.

use vstd::prelude::*;
use crate::basic::vec3::Point3;
use crate::basic::Scalar;
use crate::bvh::aabb::AABB;

verus! {

/// The order of the axes for a turn about axis `dir`: first the two that
/// the turn mixes, then the one that it leaves alone.
pub open spec fn dimension_order(dir: u32) -> [usize; 3] {
    if dir == 0 {
        [2, 1, 0]
    } else if dir == 1 {
        [0, 2, 1]
    } else {
        [1, 0, 2]
    }
}

/// The order of the axes for a turn about axis `dir`: 0 for x, 1 for y, 2 for z.
pub fn axes_of_turn(dir: u32) -> (dio: [usize; 3])
    requires
        dir <= 2,
    ensures
        dio == dimension_order(dir),
        dio[2] == dir,
        dio[0] < 3 && dio[1] < 3 && dio[0] != dio[1] && dio[0] != dir && dio[1] != dir,
{
    if dir == 0 {
        [2, 1, 0]
    } else if dir == 1 {
        [0, 2, 1]
    } else {
        [1, 0, 2]
    }
}

/// An object turned about axis `dir` by the angle of which `sin_theta` and
/// `cos_theta` are sine and cosine.
pub struct Rotate<TH> {
    pub dir: u32,
    pub obj: TH,
    pub sin_theta: Scalar,
    pub cos_theta: Scalar,
    pub aabb_box: AABB,
    pub dio: [usize; 3],
}

impl<TH> Rotate<TH> {
    /// A turned object is well formed where its axis is one of the three
    /// and its order of axes that of the axis.
    pub open spec fn wf(&self) -> bool {
        self.dir <= 2 && self.dio == dimension_order(self.dir)
    }

    /// The object `obj` turned about axis `dir`. `corners` are the corners
    /// of its box after the turn: the box of the turned object is the
    /// smallest around them.
    pub fn new(obj: TH, dir: u32, sin_theta: Scalar, cos_theta: Scalar, corners: &Vec<Point3>) -> (r: Self)
        requires
            dir <= 2,
            forall|i: int| 0 <= i < corners.len() ==> (#[trigger] corners[i]).wf(),
        ensures
            r.wf(),
            r.dir == dir,
            r.obj == obj,
            r.sin_theta == sin_theta,
            r.cos_theta == cos_theta,
            forall|i: int| 0 <= i < corners.len() ==> r.aabb_box.contains(#[trigger] corners[i]),
            forall|axis: int|
                0 <= axis < 3 ==> AABB::least_is(r.aabb_box.min.axis(axis), corners@, axis)
                    && AABB::greatest_is(r.aabb_box.max.axis(axis), corners@, axis),
    {
        let dio = axes_of_turn(dir);
        let aabb_box = AABB::around(corners);
        Self { dir, obj, sin_theta, cos_theta, aabb_box, dio }
    }

    /// The box of the turned object, worked out when it was made.
    pub fn bounding_box(&self) -> (r: Option<AABB>)
        ensures
            r == Some(self.aabb_box),
    {
        Some(self.aabb_box)
    }
}

} // verus!
