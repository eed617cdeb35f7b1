//! Boxes made of six one-way rectangles.

use vstd::prelude::*;
use super::rectangle::OneWayRectangle;
use crate::basic::vec3::Point3;
use crate::basic::Scalar;
use crate::bvh::aabb::AABB;
use crate::hittable::probe::{Found, Scene};
use crate::hittable::{
    answers_objects, choose_one, hit_t, indices, nearest_of, scan_end, HitRecord, Scan,
};

verus! {

/// Whether `side` is the face of orientation `dir` of the box from `min` to
/// `max`, at coordinate `k`, that can be hit from outside.
pub open spec fn is_face<TM>(side: OneWayRectangle<TM>, dir: u32, min: Point3, max: Point3, upper: bool) -> bool {
    let di = side.face.di;
    &&& side.wf()
    &&& side.face.dir == dir
    &&& side.face_coo_pos == upper
    &&& side.face.bound(0, 0) == min.axis(di[0] as int)
    &&& side.face.bound(0, 1) == max.axis(di[0] as int)
    &&& side.face.bound(1, 0) == min.axis(di[1] as int)
    &&& side.face.bound(1, 1) == max.axis(di[1] as int)
    &&& side.face.bound(2, 0) == (if upper {
        max.axis(di[2] as int)
    } else {
        min.axis(di[2] as int)
    })
    &&& side.face.bound(2, 1) == side.face.bound(2, 0)
}

/// An axis-aligned box, as its six faces.
pub struct Cube<TM> {
    pub min: Point3,
    pub max: Point3,
    pub sides: Vec<OneWayRectangle<TM>>,
}

impl<TM: Clone> Cube<TM> {
    /// A cube is well formed where it has its six faces: for each
    /// orientation the lower and then the upper one.
    pub open spec fn wf(&self) -> bool {
        &&& self.sides@.len() == 6
        &&& forall|i: int|
            0 <= i < 6 ==> is_face(
                #[trigger] self.sides@[i],
                (i / 2) as u32,
                self.min,
                self.max,
                i % 2 == 1,
            )
    }

    /// The box from `min` to `max`.
    pub fn new(min: Point3, max: Point3, mat: TM) -> (r: Self)
        ensures
            r.wf(),
            r.min == min,
            r.max == max,
    {
        let mut sides: Vec<OneWayRectangle<TM>> = Vec::new();
        sides.push(OneWayRectangle::new(0, min.x, max.x, min.y, max.y, min.z, mat.clone(), false));
        sides.push(OneWayRectangle::new(0, min.x, max.x, min.y, max.y, max.z, mat.clone(), true));
        sides.push(OneWayRectangle::new(1, min.y, max.y, min.z, max.z, min.x, mat.clone(), false));
        sides.push(OneWayRectangle::new(1, min.y, max.y, min.z, max.z, max.x, mat.clone(), true));
        sides.push(OneWayRectangle::new(2, min.x, max.x, min.z, max.z, min.y, mat.clone(), false));
        sides.push(OneWayRectangle::new(2, min.x, max.x, min.z, max.z, max.y, mat, true));
        Cube { min, max, sides }
    }

    /// Begins a search for the nearest hit among the six faces, to be
    /// taken through them step by step.
    pub fn scan<M>(&self, t_min: Scalar, t_max: Scalar) -> (scan: Scan<M>)
        ensures
            scan.next == 0,
            scan.len == self.sides.len(),
            scan.t_min == t_min,
            scan.closest_so_far == t_max,
            scan.rec is None,
    {
        Scan { next: 0, len: self.sides.len(), t_min, closest_so_far: t_max, rec: None }
    }

    /// The nearest hit of a ray on the cube between `t_min` and `t_max`.
    /// `side_test(i, lo, hi)` is asked for the hit of the ray on face `i`
    /// between `lo` and `hi`.
    ///
    /// The faces are asked in turn, each up to the nearest hit before it.
    /// For every scene in which `side_test` gives each face's nearest
    /// meeting with the ray, what comes back is the nearest meeting of the
    /// ray with any face.
    pub fn hit<M, O>(&self, t_min: Scalar, t_max: Scalar, side_test: O) -> (rec: Option<HitRecord<M>>)
        where O: Fn(usize, Scalar, Scalar) -> Option<HitRecord<M>>
        requires
            forall|o: usize, lo: Scalar, hi: Scalar|
                o < self.sides.len() ==> call_requires(side_test, (o, lo, hi)),
        ensures
            forall|scene: Scene|
                answers_objects(side_test, scene) ==> hit_t(rec) == (#[trigger] scan_end(
                    scene,
                    Found::nothing(t_max as int),
                    t_min as int,
                    0,
                    self.sides.len() as int,
                )).t,
            forall|scene: Scene|
                answers_objects(side_test, scene) && scene.objects_exact()
                    ==> #[trigger] scene.is_nearest(
                    indices(0, self.sides.len() as int),
                    t_min as int,
                    t_max as int,
                    hit_t(rec),
                ),
    {
        nearest_of(self.sides.len(), t_min, t_max, side_test)
    }

    /// The box of the cube: the cube.
    pub fn bounding_box(&self) -> (r: Option<AABB>)
        ensures
            r == Some(AABB { min: self.min, max: self.max }),
    {
        Some(AABB::new(self.min, self.max))
    }

    /// One of the faces, drawn at random.
    pub fn rand_side(&self) -> (r: &OneWayRectangle<TM>)
        requires
            self.wf(),
        ensures
            exists|i: int| 0 <= i < 6 && self.sides@[i] == *r,
    {
        choose_one(&self.sides).unwrap()
    }
}

} // verus!
