//! Rectangles that lie in a plane of constant x, y or z.

use vstd::prelude::*;
use crate::basic::vec3::{Point3, Vec3};
use crate::basic::{Scalar, ONE};
use crate::bvh::aabb::AABB;
use crate::hittable::{in_range, within};

verus! {

/// The axes of a rectangle of orientation `dir`: first the two that span
/// it, then the one that it is constant along. Orientation 0 lies in an
/// xy-plane, 1 in a yz-plane, 2 in an xz-plane.
pub open spec fn dimension_index(dir: u32) -> [usize; 3] {
    if dir == 0 {
        [0, 1, 2]
    } else if dir == 1 {
        [1, 2, 0]
    } else {
        [0, 2, 1]
    }
}

/// A rectangle in a plane of constant x, y or z.
///
/// `coo[axis]` holds the least and the greatest coordinate along `axis`; along
/// the axis that the rectangle is constant in the two are equal.
pub struct Rectangle<TM> {
    pub dir: u32,
    pub coo: [[Scalar; 2]; 3],
    pub mat: TM,
    pub di: [usize; 3],
}

impl<TM> Rectangle<TM> {
    /// A rectangle is well formed where its orientation is one of the
    /// three and its axes are those of the orientation.
    pub open spec fn wf(&self) -> bool {
        self.dir <= 2 && self.di == dimension_index(self.dir)
    }

    /// The least (`end` 0) or greatest (`end` 1) coordinate along the
    /// `which`-th of the rectangle's axes.
    pub open spec fn bound(&self, which: int, end: int) -> Scalar {
        self.coo[self.di[which] as int][end]
    }

    /// Whether a ray hits the rectangle that meets its plane at
    /// parameter `t`, in the point with coordinates `b1` and `b2` along the
    /// two axes that span it.
    pub open spec fn covers(&self, t: Option<Scalar>, b1: Scalar, b2: Scalar, t_min: Scalar, t_max: Scalar) -> bool {
        &&& in_range(t, t_min, t_max)
        &&& self.bound(0, 0) <= b1 <= self.bound(0, 1)
        &&& self.bound(1, 0) <= b2 <= self.bound(1, 1)
    }

    /// The unit vector along the axis that the rectangle is constant in.
    pub open spec fn normal(&self) -> Vec3 {
        if self.dir == 0 {
            Vec3 { x: 0, y: 0, z: ONE }
        } else if self.dir == 1 {
            Vec3 { x: ONE, y: 0, z: 0 }
        } else {
            Vec3 { x: 0, y: ONE, z: 0 }
        }
    }

    /// The rectangle of orientation `dir` that reaches from `a1` to `a2`
    /// along its first axis and from `a3` to `a4` along its second, at
    /// coordinate `k` along the third.
    pub fn new(dir: u32, a1: Scalar, a2: Scalar, a3: Scalar, a4: Scalar, k: Scalar, mat: TM) -> (tr: Self)
        requires
            dir <= 2,
        ensures
            tr.wf(),
            tr.dir == dir,
            tr.mat == mat,
            tr.bound(0, 0) == a1,
            tr.bound(0, 1) == a2,
            tr.bound(1, 0) == a3,
            tr.bound(1, 1) == a4,
            tr.bound(2, 0) == k,
            tr.bound(2, 1) == k,
    {
        if dir == 0 {
            Rectangle { dir, coo: [[a1, a2], [a3, a4], [k, k]], mat, di: [0, 1, 2] }
        } else if dir == 1 {
            Rectangle { dir, coo: [[k, k], [a1, a2], [a3, a4]], mat, di: [1, 2, 0] }
        } else {
            Rectangle { dir, coo: [[a1, a2], [k, k], [a3, a4]], mat, di: [0, 2, 1] }
        }
    }

    /// Decides a hit. The ray meets the rectangle's plane at parameter `t`,
    /// in the point with coordinates `b1` and `b2` along the two axes that span
    /// the rectangle. It hits where `t` lies between `t_min` and `t_max` and
    /// the point within the rectangle's sides.
    pub fn hit(&self, t: Option<Scalar>, b1: Scalar, b2: Scalar, t_min: Scalar, t_max: Scalar) -> (r: bool)
        requires
            self.wf(),
        ensures
            r == self.covers(t, b1, b2, t_min, t_max),
    {
        let a1 = self.coo[self.di[0]][0];
        let a2 = self.coo[self.di[0]][1];
        let a3 = self.coo[self.di[1]][0];
        let a4 = self.coo[self.di[1]][1];
        if !within(t, t_min, t_max) {
            return false;
        }
        if b1 < a1 || b1 > a2 || b2 < a3 || b2 > a4 {
            return false;
        }
        true
    }

    /// The normal of the rectangle's plane that points towards larger coordinates.
    pub fn outward_normal(&self) -> (n: Vec3)
        requires
            self.wf(),
        ensures
            n == self.normal(),
            n.wf(),
    {
        if self.dir == 0 {
            Vec3::new(0, 0, ONE)
        } else if self.dir == 1 {
            Vec3::new(ONE, 0, 0)
        } else {
            Vec3::new(0, ONE, 0)
        }
    }

    /// The box of the rectangle. A rectangle has no depth, so along the
    /// axis that it is constant in the box reaches from `below` to `above`: the
    /// rectangle's coordinate there, less and plus a thickness.
    pub fn bounding_box(&self, below: Scalar, above: Scalar) -> (r: Option<AABB>)
        requires
            self.wf(),
        ensures
            r matches Some(b) && forall|axis: int|
                0 <= axis < 3 ==> b.min.axis(axis) == (if axis == self.di[2] {
                    below
                } else {
                    self.coo[axis][0]
                }) && b.max.axis(axis) == (if axis == self.di[2] {
                    above
                } else {
                    self.coo[axis][1]
                }),
    {
        let flat = self.di[2];
        Some(
            AABB {
                min: Point3::new(
                    if flat == 0 { below } else { self.coo[0][0] },
                    if flat == 1 { below } else { self.coo[1][0] },
                    if flat == 2 { below } else { self.coo[2][0] },
                ),
                max: Point3::new(
                    if flat == 0 { above } else { self.coo[0][1] },
                    if flat == 1 { above } else { self.coo[1][1] },
                    if flat == 2 { above } else { self.coo[2][1] },
                ),
            },
        )
    }
}

/// A rectangle that can be hit from one side only.
///
/// With `face_coo_pos` it faces towards larger coordinates, and only a ray
/// that does not head that way hits it; without, only a ray that does.
pub struct OneWayRectangle<TM> {
    pub face: Rectangle<TM>,
    pub face_coo_pos: bool,
}

impl<TM> OneWayRectangle<TM> {
    pub open spec fn wf(&self) -> bool {
        self.face.wf()
    }

    /// Whether a ray of direction `ray_dir` comes from the side that the
    /// rectangle can be hit from.
    pub open spec fn faces(&self, ray_dir: Vec3) -> bool {
        (ray_dir.axis(self.face.di[2] as int) > 0) != self.face_coo_pos
    }

    /// The one-way rectangle with the sides of [`Rectangle::new`].
    pub fn new(dir: u32, a1: Scalar, a2: Scalar, a3: Scalar, a4: Scalar, k: Scalar, mat: TM, face_coo_pos: bool) -> (tr: Self)
        requires
            dir <= 2,
        ensures
            tr.wf(),
            tr.face_coo_pos == face_coo_pos,
            tr.face.dir == dir,
            tr.face.mat == mat,
            tr.face.bound(0, 0) == a1,
            tr.face.bound(0, 1) == a2,
            tr.face.bound(1, 0) == a3,
            tr.face.bound(1, 1) == a4,
            tr.face.bound(2, 0) == k,
            tr.face.bound(2, 1) == k,
    {
        OneWayRectangle { face: Rectangle::new(dir, a1, a2, a3, a4, k, mat), face_coo_pos }
    }

    /// Decides a hit, as [`Rectangle::hit`] does, for a ray of direction
    /// `ray_dir`: it hits only where it comes from the right side.
    pub fn hit(&self, t: Option<Scalar>, b1: Scalar, b2: Scalar, t_min: Scalar, t_max: Scalar, ray_dir: &Vec3) -> (r: bool)
        requires
            self.wf(),
        ensures
            r == (self.face.covers(t, b1, b2, t_min, t_max) && self.faces(*ray_dir)),
    {
        if !self.face.hit(t, b1, b2, t_min, t_max) {
            return false;
        }
        let heading = ray_dir.index(self.face.di[2]);
        (heading > 0) != self.face_coo_pos
    }
}

} // verus!
