//! Flat rings about the origin, whole and broken.

use vstd::prelude::*;
use crate::basic::vec3::{Point3, Vec3};
use crate::basic::{is_scalar, Scalar, ONE};
use crate::bvh::aabb::AABB;
use crate::hittable::{in_range, within};

verus! {

/// A flat ring in the plane of height zero, about the origin: of radius
/// `r` in the middle of its band, and `t` wide to either side of that.
///
/// `ds_min` and `ds_max` are the squares of its inner and of its outer radius.
pub struct Ring<TM> {
    pub r: Scalar,
    pub t: Scalar,
    pub mat: TM,
    pub ds_min: Scalar,
    pub ds_max: Scalar,
}

/// The box of a ring that reaches `reach` from the origin, `thickness` thick
/// to either side of its plane.
pub open spec fn ring_box(reach: Scalar, thickness: Scalar) -> AABB {
    AABB {
        min: Point3 { x: (-reach) as Scalar, y: (-thickness) as Scalar, z: (-reach) as Scalar },
        max: Point3 { x: reach, y: thickness, z: reach },
    }
}

/// The normal of every ring: straight up.
pub open spec fn up() -> Vec3 {
    Vec3 { x: 0, y: ONE, z: 0 }
}

impl<TM> Ring<TM> {
    /// The ring of radius `r` and half-width `t`, with the squares of its
    /// inner and outer radius.
    pub fn new(r: Scalar, t: Scalar, ds_min: Scalar, ds_max: Scalar, mat: TM) -> (s: Self)
        ensures
            s.r == r,
            s.t == t,
            s.ds_min == ds_min,
            s.ds_max == ds_max,
            s.mat == mat,
    {
        Self { r, t, mat, ds_min, ds_max }
    }

    /// Whether a point of the plane lies on the band, from the square `d`
    /// of its distance from the origin.
    pub open spec fn on_band(&self, d: Scalar) -> bool {
        self.ds_min <= d <= self.ds_max
    }

    /// Decides a hit. The ray meets the plane of the ring at parameter `t`,
    /// in a point whose distance from the origin has the square `d`. It hits
    /// where `t` lies between `t_min` and `t_max` and the point on the band.
    pub fn hit(&self, t: Option<Scalar>, d: Scalar, t_min: Scalar, t_max: Scalar) -> (r: bool)
        ensures
            r == (in_range(t, t_min, t_max) && self.on_band(d)),
    {
        if !within(t, t_min, t_max) {
            false
        } else {
            !(d < self.ds_min || d > self.ds_max)
        }
    }

    /// The box of the ring, from its outer radius `reach` and a thickness.
    pub fn bounding_box(&self, reach: Scalar, thickness: Scalar) -> (r: Option<AABB>)
        requires
            is_scalar(reach as int),
            is_scalar(thickness as int),
        ensures
            r == Some(ring_box(reach, thickness)),
    {
        Some(AABB::new(Point3::new(-reach, -thickness, -reach), Point3::new(reach, thickness, reach)))
    }

    /// The normal of the ring.
    pub fn outward_normal(&self) -> (n: Vec3)
        ensures
            n == up(),
            n.wf(),
    {
        Vec3::new(0, ONE, 0)
    }
}

/// A ring of which only some arcs are there.
///
/// `point_list` holds the angles, rising, at which the ring begins and
/// ceases in turn, as one goes round from angle zero.
pub struct BrokenRing<TM> {
    pub r: Scalar,
    pub t: Scalar,
    pub mat: TM,
    pub ds_min: Scalar,
    pub ds_max: Scalar,
    pub point_list: Vec<Scalar>,
}

/// The number of angles at the beginning of `points`, from index `from` on,
/// that do not exceed `radian`.
pub open spec fn passed(points: Seq<Scalar>, radian: Scalar, from: int) -> int
    decreases points.len() - from,
{
    if 0 <= from < points.len() && radian >= points[from] {
        1 + passed(points, radian, from + 1)
    } else {
        0
    }
}

/// Whether the ring is there at angle `radian`. `next_turn` is the same
/// angle one full turn on.
///
/// It is there after an odd number of the angles of `points`. Where their
/// number is even, the last of them may lie beyond the full turn, and the arc
/// that it ends begin before angle zero: then the ring is there as well
/// where the angle, one turn on, still comes before it.
pub open spec fn solid_at(points: Seq<Scalar>, radian: Scalar, next_turn: Scalar) -> bool {
    passed(points, radian, 0) % 2 != 0 || (points.len() % 2 == 0 && next_turn < points.last())
}

impl<TM> BrokenRing<TM> {
    /// A broken ring is well formed where it has an angle at least.
    pub open spec fn wf(&self) -> bool {
        self.point_list@.len() > 0
    }

    /// The broken ring of radius `r` and half-width `t`, with the squares
    /// of its inner and outer radius and the angles at which it begins and
    /// ceases.
    pub fn new(r: Scalar, t: Scalar, ds_min: Scalar, ds_max: Scalar, point_list: Vec<Scalar>, mat: TM) -> (s: Self)
        requires
            point_list.len() > 0,
        ensures
            s.wf(),
            s.r == r,
            s.t == t,
            s.ds_min == ds_min,
            s.ds_max == ds_max,
            s.point_list == point_list,
            s.mat == mat,
    {
        Self { r, t, mat, ds_min, ds_max, point_list }
    }

    /// Decides a hit. The ray meets the plane of the ring at parameter `t`,
    /// in a point whose distance from the origin has the square `d`, at angle
    /// `radian` about the origin, which one full turn on is `next_turn`. It
    /// hits where `t` lies between `t_min` and `t_max`, the point on the band,
    /// and the ring is there at that angle.
    pub fn hit(&self, t: Option<Scalar>, d: Scalar, radian: Scalar, next_turn: Scalar, t_min: Scalar, t_max: Scalar) -> (r: bool)
        requires
            self.wf(),
        ensures
            r == (in_range(t, t_min, t_max) && self.ds_min <= d <= self.ds_max && solid_at(
                self.point_list@,
                radian,
                next_turn,
            )),
    {
        if !within(t, t_min, t_max) {
            return false;
        }
        if d < self.ds_min || d > self.ds_max {
            return false;
        }
        let mut cnt: usize = 0;
        while cnt < self.point_list.len() && !(radian < self.point_list[cnt])
            invariant
                cnt <= self.point_list.len(),
                passed(self.point_list@, radian, 0) == cnt + passed(
                    self.point_list@,
                    radian,
                    cnt as int,
                ),
            decreases self.point_list.len() - cnt,
        {
            cnt += 1;
        }
        cnt % 2 != 0 || (self.point_list.len() % 2 == 0 && next_turn
            < self.point_list[self.point_list.len() - 1])
    }

    /// The box of the ring, from its outer radius `reach` and a thickness.
    pub fn bounding_box(&self, reach: Scalar, thickness: Scalar) -> (r: Option<AABB>)
        requires
            is_scalar(reach as int),
            is_scalar(thickness as int),
        ensures
            r == Some(ring_box(reach, thickness)),
    {
        Some(AABB::new(Point3::new(-reach, -thickness, -reach), Point3::new(reach, thickness, reach)))
    }

    /// The normal of the ring.
    pub fn outward_normal(&self) -> (n: Vec3)
        ensures
            n == up(),
            n.wf(),
    {
        Vec3::new(0, ONE, 0)
    }
}

/// Where the angles rise, those passed are those that do not exceed the
/// angle: the ring is there after an odd number of such.
pub proof fn lemma_passed_counts(points: Seq<Scalar>, radian: Scalar, from: int, i: int)
    requires
        forall|a: int, b: int| 0 <= a <= b < points.len() ==> points[a] <= points[b],
        0 <= from <= i < points.len(),
    ensures
        0 <= passed(points, radian, from) <= points.len() - from,
        radian >= points[i] <==> i < from + passed(points, radian, from),
    decreases points.len() - from,
{
    if radian >= points[from] {
        if from + 1 < points.len() {
            if i > from {
                lemma_passed_counts(points, radian, from + 1, i);
            } else {
                lemma_passed_counts(points, radian, from + 1, from + 1);
            }
        } else {
            assert(passed(points, radian, from + 1) == 0);
        }
    } else {
        assert(points[from] <= points[i]);
    }
}

} // verus!
