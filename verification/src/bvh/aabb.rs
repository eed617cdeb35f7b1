//! Axis-aligned bounding boxes.

use vstd::prelude::*;
use crate::basic::vec3::Point3;
use crate::basic::{max_f64, min_f64, Scalar, INFINITY, NEG_INFINITY};

verus! {

/// Where a ray crosses the two planes that bound a box along one axis.
///
/// `t0` is the ray parameter at the plane of the box's minimum, `t1` at the
/// plane of its maximum; either is `None` where the ray runs inside that
/// plane, so that no parameter is defined. `reversed` tells that the ray
/// heads towards smaller coordinates along this axis, so that it meets the
/// plane of the maximum first.
#[derive(Copy, Clone, Debug, PartialEq, Eq, Structural)]
pub struct Slab {
    pub t0: Option<Scalar>,
    pub t1: Option<Scalar>,
    pub reversed: bool,
}

impl Slab {
    /// The parameter at which the ray enters the slab.
    pub open spec fn entry(self) -> Option<Scalar> {
        if self.reversed {
            self.t1
        } else {
            self.t0
        }
    }

    /// The parameter at which the ray leaves the slab.
    pub open spec fn exit(self) -> Option<Scalar> {
        if self.reversed {
            self.t0
        } else {
            self.t1
        }
    }
}

/// The lower end `lo` of an interval, raised to `by` where that is defined and larger.
pub open spec fn raised(lo: int, by: Option<Scalar>) -> int {
    match by {
        Some(t) => if t > lo { t as int } else { lo },
        None => lo,
    }
}

/// The upper end `hi` of an interval, lowered to `by` where that is defined and smaller.
pub open spec fn lowered(hi: int, by: Option<Scalar>) -> int {
    match by {
        Some(t) => if t < hi { t as int } else { hi },
        None => hi,
    }
}

/// An axis-aligned box, by its corner of least and its corner of greatest coordinates.
#[derive(Copy, Clone, Debug, PartialEq, Eq, Structural)]
pub struct AABB {
    pub min: Point3,
    pub max: Point3,
}

impl AABB {
    /// A box is well formed where, along every axis, its minimum does not
    /// exceed its maximum.
    pub open spec fn wf(self) -> bool {
        self.min.x <= self.max.x && self.min.y <= self.max.y && self.min.z <= self.max.z
    }

    /// Whether the point `p` lies in the box, its faces included.
    pub open spec fn contains(self, p: Point3) -> bool {
        self.min.x <= p.x <= self.max.x && self.min.y <= p.y <= self.max.y && self.min.z <= p.z
            <= self.max.z
    }

    /// Whether the whole of `other` lies in the box.
    pub open spec fn encloses(self, other: AABB) -> bool {
        self.min.x <= other.min.x && other.max.x <= self.max.x && self.min.y <= other.min.y
            && other.max.y <= self.max.y && self.min.z <= other.min.z && other.max.z
            <= self.max.z
    }

    /// The box of the least minima and the greatest maxima of two boxes.
    pub open spec fn union(self, other: AABB) -> AABB {
        AABB {
            min: Point3 {
                x: if self.min.x < other.min.x { self.min.x } else { other.min.x },
                y: if self.min.y < other.min.y { self.min.y } else { other.min.y },
                z: if self.min.z < other.min.z { self.min.z } else { other.min.z },
            },
            max: Point3 {
                x: if self.max.x > other.max.x { self.max.x } else { other.max.x },
                y: if self.max.y > other.max.y { self.max.y } else { other.max.y },
                z: if self.max.z > other.max.z { self.max.z } else { other.max.z },
            },
        }
    }

    /// Whether `bound` is the least coordinate of `points` along `axis`:
    /// that of some point where there is one, infinity where there is none.
    pub open spec fn least_is(bound: Scalar, points: Seq<Point3>, axis: int) -> bool {
        if points.len() == 0 {
            bound == INFINITY
        } else {
            exists|k: int| 0 <= k < points.len() && (#[trigger] points[k]).axis(axis) == bound
        }
    }

    /// Whether `bound` is the greatest coordinate of `points` along `axis`:
    /// that of some point where there is one, minus infinity where there is
    /// none.
    pub open spec fn greatest_is(bound: Scalar, points: Seq<Point3>, axis: int) -> bool {
        if points.len() == 0 {
            bound == NEG_INFINITY
        } else {
            exists|k: int| 0 <= k < points.len() && (#[trigger] points[k]).axis(axis) == bound
        }
    }

    /// Whether some part of the ray between `t_min` and `t_max` lies inside
    /// all three slabs: the latest entry comes before the earliest exit.
    pub open spec fn overlaps(slabs: [Slab; 3], t_min: Scalar, t_max: Scalar) -> bool {
        raised(raised(raised(t_min as int, slabs[0].entry()), slabs[1].entry()), slabs[2].entry())
            < lowered(
            lowered(lowered(t_max as int, slabs[0].exit()), slabs[1].exit()),
            slabs[2].exit(),
        )
    }

    pub fn new(min: Point3, max: Point3) -> (r: Self)
        ensures
            r == (AABB { min, max }),
    {
        Self { min, max }
    }

    /// Narrows the range `lo..hi` by one slab: the lower end rises to the
    /// entry, the upper end falls to the exit, where these are defined.
    fn narrow(lo: Scalar, hi: Scalar, slab: &Slab) -> (r: (Scalar, Scalar))
        ensures
            r.0 == raised(lo as int, slab.entry()),
            r.1 == lowered(hi as int, slab.exit()),
    {
        let (entry, exit) = if slab.reversed {
            (slab.t1, slab.t0)
        } else {
            (slab.t0, slab.t1)
        };
        let lo = match entry {
            Some(t) => max_f64(t, lo),
            None => lo,
        };
        let hi = match exit {
            Some(t) => min_f64(t, hi),
            None => hi,
        };
        (lo, hi)
    }

    /// The slab test: narrows `t_min..t_max` by the three slabs in turn and
    /// gives up as soon as nothing is left.
    pub fn hit(slabs: &[Slab; 3], t_min: Scalar, t_max: Scalar) -> (r: bool)
        ensures
            r == Self::overlaps(*slabs, t_min, t_max),
    {
        let (lo, hi) = Self::narrow(t_min, t_max, &slabs[0]);
        if hi <= lo {
            return false;
        }
        let (lo, hi) = Self::narrow(lo, hi, &slabs[1]);
        if hi <= lo {
            return false;
        }
        let (lo, hi) = Self::narrow(lo, hi, &slabs[2]);
        !(hi <= lo)
    }

    /// The smallest box around two boxes.
    pub fn surrounding_box(box0: &Self, box1: &Self) -> (r: Self)
        ensures
            r == box0.union(*box1),
    {
        AABB::new(
            Point3::new(
                min_f64(box0.min.x, box1.min.x),
                min_f64(box0.min.y, box1.min.y),
                min_f64(box0.min.z, box1.min.z),
            ),
            Point3::new(
                max_f64(box0.max.x, box1.max.x),
                max_f64(box0.max.y, box1.max.y),
                max_f64(box0.max.z, box1.max.z),
            ),
        )
    }

    /// The smallest box around some points; with no point, the box that
    /// holds nothing, from infinity down to minus infinity.
    pub fn around(points: &Vec<Point3>) -> (r: Self)
        requires
            forall|i: int| 0 <= i < points.len() ==> (#[trigger] points[i]).wf(),
        ensures
            forall|i: int| 0 <= i < points.len() ==> r.contains(#[trigger] points[i]),
            r.min.wf() && r.max.wf(),
            forall|axis: int|
                0 <= axis < 3 ==> Self::least_is(r.min.axis(axis), points@, axis) && Self::greatest_is(
                    r.max.axis(axis),
                    points@,
                    axis,
                ),
    {
        let mut min = Point3::new(INFINITY, INFINITY, INFINITY);
        let mut max = Point3::new(NEG_INFINITY, NEG_INFINITY, NEG_INFINITY);
        let mut i: usize = 0;
        while i < points.len()
            invariant
                i <= points.len(),
                forall|j: int| 0 <= j < points.len() ==> (#[trigger] points[j]).wf(),
                forall|j: int|
                    0 <= j < i ==> (AABB { min, max }).contains(#[trigger] points[j]),
                min.wf() && max.wf(),
                forall|axis: int|
                    0 <= axis < 3 ==> Self::least_is(min.axis(axis), points@.take(i as int), axis)
                        && Self::greatest_is(max.axis(axis), points@.take(i as int), axis),
            decreases points.len() - i,
        {
            let tester = points[i];
            let ghost before = points@.take(i as int);
            let ghost upto = points@.take(i as int + 1);
            let ghost old_min = min;
            let ghost old_max = max;
            min = Point3::new(min_f64(min.x, tester.x), min_f64(min.y, tester.y), min_f64(min.z, tester.z));
            max = Point3::new(max_f64(max.x, tester.x), max_f64(max.y, tester.y), max_f64(max.z, tester.z));
            proof {
                assert(upto[i as int] == tester);
                assert forall|axis: int| 0 <= axis < 3 implies Self::least_is(
                    min.axis(axis),
                    upto,
                    axis,
                ) && Self::greatest_is(max.axis(axis), upto, axis) by {
                    assert(Self::least_is(old_min.axis(axis), before, axis));
                    assert(Self::greatest_is(old_max.axis(axis), before, axis));
                    if min.axis(axis) != tester.axis(axis) {
                        assert(min.axis(axis) == old_min.axis(axis));
                        if before.len() > 0 {
                            let k = choose|k: int|
                                0 <= k < before.len() && (#[trigger] before[k]).axis(axis)
                                    == old_min.axis(axis);
                            assert(upto[k] == before[k]);
                        }
                    }
                    if max.axis(axis) != tester.axis(axis) {
                        assert(max.axis(axis) == old_max.axis(axis));
                        if before.len() > 0 {
                            let k = choose|k: int|
                                0 <= k < before.len() && (#[trigger] before[k]).axis(axis)
                                    == old_max.axis(axis);
                            assert(upto[k] == before[k]);
                        }
                    }
                }
            }
            i += 1;
        }
        assert(points@.take(i as int) =~= points@);
        AABB::new(min, max)
    }

    /// The box around two boxes holds every point of either.
    pub proof fn lemma_union_contains(self, other: AABB, p: Point3)
        requires
            self.contains(p) || other.contains(p),
        ensures
            self.union(other).contains(p),
    {
    }

    /// The box around two boxes is the smallest that holds every point of
    /// both: any box that does encloses it.
    pub proof fn lemma_union_least(self, other: AABB, outer: AABB)
        requires
            self.wf(),
            other.wf(),
            forall|q: Point3| self.contains(q) || other.contains(q) ==> #[trigger] outer.contains(q),
        ensures
            outer.encloses(self.union(other)),
    {
        assert(self.contains(self.min) && self.contains(self.max));
        assert(other.contains(other.min) && other.contains(other.max));
        assert(outer.contains(self.min) && outer.contains(self.max));
        assert(outer.contains(other.min) && outer.contains(other.max));
    }

    /// The box around two boxes encloses both, and is well formed where they are.
    pub proof fn lemma_union_encloses(self, other: AABB)
        ensures
            self.union(other).encloses(self),
            self.union(other).encloses(other),
            self.wf() || other.wf() ==> self.union(other).wf(),
    {
    }

    /// A box that encloses two boxes encloses the box around them.
    pub proof fn lemma_union_within(self, other: AABB, outer: AABB)
        requires
            outer.encloses(self),
            outer.encloses(other),
        ensures
            outer.encloses(self.union(other)),
    {
    }

    /// Enclosure passes on: a box that encloses a second encloses what the second encloses.
    pub proof fn lemma_encloses_transitive(self, middle: AABB, inner: AABB)
        requires
            self.encloses(middle),
            middle.encloses(inner),
        ensures
            self.encloses(inner),
    {
    }
}

impl Default for AABB {
    /// The box that holds the origin alone.
    fn default() -> (r: Self)
        ensures
            r == (AABB { min: Point3 { x: 0, y: 0, z: 0 }, max: Point3 { x: 0, y: 0, z: 0 } }),
    {
        Self { min: Point3 { x: 0, y: 0, z: 0 }, max: Point3 { x: 0, y: 0, z: 0 } }
    }
}

} // verus!
