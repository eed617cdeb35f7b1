//! Hits, and lists of things that can be hit.

use vstd::prelude::*;
use rand::seq::SliceRandom;
use crate::basic::vec3::{Point3, Vec3};
use crate::basic::Scalar;
use crate::bvh::aabb::AABB;
use self::probe::{lemma_right_after_object, Found, Scene};

pub mod instance;
pub mod obj_model;
pub mod object;
pub mod probe;

verus! {

/// A hit: where a ray met a surface, and how.
///
/// `normal` always stands against the ray. `front_face` tells whether the
/// surface's own outward normal did so already, or had to be turned round.
/// `mat` is whatever the caller knows the material by.
pub struct HitRecord<M> {
    pub p: Point3,
    pub normal: Vec3,
    pub mat: M,
    pub t: Scalar,
    pub front_face: bool,
    pub u: Scalar,
    pub v: Scalar,
}

impl<M> HitRecord<M> {
    /// The hit at point `p` and ray parameter `t`, with surface coordinates
    /// `u` and `v`. `facing` is the dot product of the ray's direction with
    /// `outward_normal`; see [`HitRecord::set_face_normal`].
    pub fn new(u: Scalar, v: Scalar, t: Scalar, p: Point3, facing: Scalar, outward_normal: &Vec3, mat: M) -> (r: Self)
        requires
            outward_normal.wf(),
        ensures
            r.u == u,
            r.v == v,
            r.t == t,
            r.p == p,
            r.mat == mat,
            r.front_face == (facing < 0),
            r.normal == if facing < 0 {
                *outward_normal
            } else {
                outward_normal.negated()
            },
    {
        let mut tmp_rec = Self { p, normal: Vec3::default(), mat, t, front_face: false, u, v };
        tmp_rec.set_face_normal(facing, outward_normal);
        tmp_rec
    }

    /// Sets the normal against the ray. `facing` is the dot product of the
    /// ray's direction with `outward_normal`: where it is negative the ray
    /// comes from outside and the normal is kept, else the normal is turned
    /// round.
    pub fn set_face_normal(&mut self, facing: Scalar, outward_normal: &Vec3)
        requires
            outward_normal.wf(),
        ensures
            final(self).front_face == (facing < 0),
            final(self).normal == if facing < 0 {
                *outward_normal
            } else {
                outward_normal.negated()
            },
            final(self).p == old(self).p,
            final(self).mat == old(self).mat,
            final(self).t == old(self).t,
            final(self).u == old(self).u,
            final(self).v == old(self).v,
    {
        self.front_face = facing < 0;
        self.normal = if self.front_face {
            *outward_normal
        } else {
            outward_normal.neg()
        };
    }
}

/// Whether a ray parameter is a number between `t_min` and `t_max`, the ends
/// included. A parameter that is not a number, as a ray that runs along a
/// plane has it, is `None` and in no range.
pub open spec fn in_range(t: Option<Scalar>, t_min: Scalar, t_max: Scalar) -> bool {
    t matches Some(x) && t_min <= x <= t_max
}

/// Whether a ray parameter counts between `t_min` and `t_max`.
pub fn within(t: Option<Scalar>, t_min: Scalar, t_max: Scalar) -> (r: bool)
    ensures
        r == in_range(t, t_min, t_max),
{
    match t {
        Some(x) => !(x < t_min || x > t_max),
        None => false,
    }
}

/// What a search asks next.
#[derive(Copy, Clone, Debug, PartialEq, Eq, Structural)]
pub enum Probe {
    /// Does the ray pass through this box between `t_min` and `t_max`?
    Box { aabb_box: AABB, t_min: Scalar, t_max: Scalar },
    /// Where does the ray hit the object with this index between `t_min` and `t_max`?
    Object { index: usize, t_min: Scalar, t_max: Scalar },
    /// Nothing: the search is over.
    Done,
}

/// The parameter of a hit, if there is one.
pub open spec fn hit_t<M>(rec: Option<HitRecord<M>>) -> Option<int> {
    match rec {
        Some(h) => Some(h.t as int),
        None => None,
    }
}

/// A search for the nearest hit through a list, one object after the other.
pub struct Scan<M> {
    /// The index of the object that is asked next.
    pub next: usize,
    /// The number of objects in the list.
    pub len: usize,
    pub t_min: Scalar,
    /// The parameter of the nearest hit so far, `t_max` before any.
    pub closest_so_far: Scalar,
    /// The nearest hit so far.
    pub rec: Option<HitRecord<M>>,
}

impl<M> Scan<M> {
    /// How far the search has come.
    pub open spec fn found(&self) -> Found {
        Found { closest: self.closest_so_far as int, t: hit_t(self.rec) }
    }

    /// What the search ends with, where every object still to be asked
    /// gives the answer that `scene` holds for it.
    pub open spec fn ends_with(&self, scene: Scene) -> Found {
        scan_end(scene, self.found(), self.t_min as int, self.next as int, self.len as int)
    }

    /// What the search asks next: the next object, from `t_min` up to the
    /// nearest hit so far. With no object left the search is over, and what
    /// it has found is what it ends with.
    pub fn probe(&self) -> (r: Probe)
        ensures
            r == if self.next < self.len {
                Probe::Object { index: self.next, t_min: self.t_min, t_max: self.closest_so_far }
            } else {
                Probe::Done
            },
            r is Done ==> forall|scene: Scene| #[trigger] self.ends_with(scene) == self.found(),
    {
        if self.next < self.len {
            Probe::Object { index: self.next, t_min: self.t_min, t_max: self.closest_so_far }
        } else {
            Probe::Done
        }
    }

    /// Takes the answer of the object that was asked: a hit becomes the
    /// nearest so far, and the search goes on to the next object. Where the
    /// answer is the one that a scene holds for the object, the search still
    /// ends with what it would have ended with.
    pub fn record(&mut self, answer: Option<HitRecord<M>>)
        requires
            old(self).next < old(self).len,
        ensures
            final(self).next == old(self).next + 1,
            final(self).len == old(self).len,
            final(self).t_min == old(self).t_min,
            final(self).found() == old(self).found().after(hit_t(answer)),
            final(self).rec == if answer is Some {
                answer
            } else {
                old(self).rec
            },
            forall|scene: Scene|
                hit_t(answer) == scene.reports(
                    old(self).next,
                    old(self).t_min as int,
                    old(self).closest_so_far as int,
                ) ==> #[trigger] final(self).ends_with(scene) == old(self).ends_with(scene),
    {
        if let Some(temp_rec) = answer {
            self.closest_so_far = temp_rec.t;
            self.rec = Some(temp_rec);
        }
        self.next = self.next + 1;
    }
}

/// What a scan from object `from` on ends with, where every object gives
/// the answer that `scene` holds for it.
pub open spec fn scan_end(scene: Scene, found: Found, t_min: int, from: int, len: int) -> Found
    decreases len - from,
{
    if from < 0 || from >= len {
        found
    } else {
        scan_end(
            scene,
            found.after(scene.reports(from as usize, t_min, found.closest)),
            t_min,
            from + 1,
            len,
        )
    }
}

/// Whether `object_test` answers as the objects of `scene` do: what it gives
/// back for an object and a range holds the parameter that the scene reports
/// for them.
pub open spec fn answers_objects<M, O: Fn(usize, Scalar, Scalar) -> Option<HitRecord<M>>>(
    object_test: O,
    scene: Scene,
) -> bool {
    forall|o: usize, lo: Scalar, hi: Scalar, r: Option<HitRecord<M>>|
        #[trigger] call_ensures(object_test, (o, lo, hi), r) ==> hit_t(r) == scene.reports(
            o,
            lo as int,
            hi as int,
        )
}

/// The objects with indices from `from` up to `len`.
pub open spec fn indices(from: int, len: int) -> Set<usize> {
    Set::new(|o: usize| from <= o < len)
}

/// A scan that is right so far ends right, all objects asked.
pub proof fn lemma_scan_end_right(
    scene: Scene,
    found: Found,
    seen: Set<usize>,
    t_min: int,
    t_max: int,
    from: int,
    len: int,
)
    requires
        scene.objects_exact(),
        0 <= from <= len <= usize::MAX,
        found.right(scene, seen, t_min, t_max),
    ensures
        scan_end(scene, found, t_min, from, len).right(
            scene,
            seen.union(indices(from, len)),
            t_min,
            t_max,
        ),
    decreases len - from,
{
    if from >= len {
        assert(seen.union(indices(from, len)) =~= seen);
    } else {
        let o = from as usize;
        lemma_right_after_object(scene, found, seen, o, t_min, t_max);
        let next = found.after(scene.reports(o, t_min, found.closest));
        lemma_scan_end_right(scene, next, seen.insert(o), t_min, t_max, from + 1, len);
        assert(seen.insert(o).union(indices(from + 1, len)) =~= seen.union(indices(from, len)));
    }
}

/// The nearest hit of a ray on `len` objects between `t_min` and `t_max`:
/// the scan through them, run to its end. `object_test(i, lo, hi)` is asked
/// for the hit of the ray on object `i` between `lo` and `hi`.
pub fn nearest_of<M, O>(len: usize, t_min: Scalar, t_max: Scalar, object_test: O) -> (rec: Option<HitRecord<M>>)
    where O: Fn(usize, Scalar, Scalar) -> Option<HitRecord<M>>
    requires
        forall|o: usize, lo: Scalar, hi: Scalar|
            o < len ==> call_requires(object_test, (o, lo, hi)),
    ensures
        forall|scene: Scene|
            answers_objects(object_test, scene) ==> hit_t(rec) == (#[trigger] scan_end(
                scene,
                Found::nothing(t_max as int),
                t_min as int,
                0,
                len as int,
            )).t,
        forall|scene: Scene|
            answers_objects(object_test, scene) && scene.objects_exact()
                ==> #[trigger] scene.is_nearest(
                indices(0, len as int),
                t_min as int,
                t_max as int,
                hit_t(rec),
            ),
{
    let mut scan: Scan<M> = Scan { next: 0, len, t_min, closest_so_far: t_max, rec: None };
    loop
        invariant
            scan.len == len,
            scan.next <= scan.len,
            scan.t_min == t_min,
            forall|o: usize, lo: Scalar, hi: Scalar|
                o < len ==> call_requires(object_test, (o, lo, hi)),
            forall|scene: Scene|
                answers_objects(object_test, scene) ==> #[trigger] scan.ends_with(scene)
                    == scan_end(
                    scene,
                    Found::nothing(t_max as int),
                    t_min as int,
                    0,
                    len as int,
                ),
        decreases scan.len - scan.next,
    {
        match scan.probe() {
            Probe::Object { index, t_min: lo, t_max: hi } => {
                let answer = object_test(index, lo, hi);
                let ghost before = scan;
                let ghost t = hit_t(answer);
                scan.record(answer);
                proof {
                    assert forall|scene: Scene|
                        answers_objects(object_test, scene) implies #[trigger] scan.ends_with(
                        scene,
                    ) == before.ends_with(scene) by {
                        assert(t == scene.reports(index, lo as int, hi as int));
                    }
                }
            },
            _ => {
                proof {
                    assert forall|scene: Scene|
                        answers_objects(object_test, scene)
                            && scene.objects_exact() implies #[trigger] scene.is_nearest(
                        indices(0, len as int),
                        t_min as int,
                        t_max as int,
                        hit_t(scan.rec),
                    ) by {
                        assert(scan.ends_with(scene) == scan.found());
                        lemma_scan_end_right(
                            scene,
                            Found::nothing(t_max as int),
                            Set::<usize>::empty(),
                            t_min as int,
                            t_max as int,
                            0,
                            len as int,
                        );
                        assert(Set::<usize>::empty().union(
                            indices(0, len as int),
                        ) =~= indices(0, len as int));
                    }
                    assert forall|scene: Scene|
                        answers_objects(object_test, scene) implies hit_t(scan.rec)
                        == (#[trigger] scan_end(
                        scene,
                        Found::nothing(t_max as int),
                        t_min as int,
                        0,
                        len as int,
                    )).t by {
                        assert(scan.ends_with(scene) == scan.found());
                    }
                }
                return scan.rec;
            },
        }
    }
}

/// `rand::seq::SliceRandom::choose` on the thread's generator: one item of
/// the slice, whichever the generator picks, or `None` where there is none.
#[verifier::external_body]
pub(crate) fn choose_one<H>(items: &Vec<H>) -> (r: Option<&H>)
    ensures
        r is None <==> items.len() == 0,
        r matches Some(item) ==> exists|i: int| 0 <= i < items.len() && items[i] == *item,
{
    items.choose(&mut rand::thread_rng())
}

/// The box around those of `boxes` that are there; the box at the origin
/// where none is.
pub open spec fn total_box(boxes: Seq<Option<AABB>>) -> AABB
    decreases boxes.len(),
{
    if boxes.len() == 0 {
        AABB { min: Point3 { x: 0, y: 0, z: 0 }, max: Point3 { x: 0, y: 0, z: 0 } }
    } else {
        match boxes.last() {
            None => total_box(boxes.drop_last()),
            Some(b) => if has_box(boxes.drop_last()) {
                total_box(boxes.drop_last()).union(b)
            } else {
                b
            },
        }
    }
}

/// Whether one of `boxes` is there.
pub open spec fn has_box(boxes: Seq<Option<AABB>>) -> bool {
    exists|i: int| 0 <= i < boxes.len() && #[trigger] boxes[i] is Some
}

/// An ordered list of objects, each known by whatever the caller holds it in.
pub struct HittableList<H> {
    pub objects: Vec<H>,
}

impl<H> HittableList<H> {
    /// Puts `object` at the end of the list.
    pub fn add(&mut self, object: H)
        ensures
            final(self).objects@ == old(self).objects@.push(object),
    {
        self.objects.push(object);
    }

    /// Begins a search for the nearest hit between `t_min` and `t_max`, to
    /// be taken through the list step by step: the objects are asked in the
    /// order of the list, each up to the nearest hit before it.
    pub fn scan<M>(&self, t_min: Scalar, t_max: Scalar) -> (scan: Scan<M>)
        ensures
            scan.next == 0,
            scan.len == self.objects.len(),
            scan.t_min == t_min,
            scan.closest_so_far == t_max,
            scan.rec is None,
    {
        Scan { next: 0, len: self.objects.len(), t_min, closest_so_far: t_max, rec: None }
    }

    /// The nearest hit of a ray on the list between `t_min` and `t_max`.
    /// `object_test(i, lo, hi)` is asked for the hit of the ray on object `i`
    /// between `lo` and `hi`.
    ///
    /// The objects are asked in the order of the list, each up to the
    /// nearest hit before it. For every scene in which `object_test` gives
    /// each object's nearest meeting with the ray, what comes back is the
    /// nearest meeting of the ray with any object of the list.
    pub fn hit<M, O>(&self, t_min: Scalar, t_max: Scalar, object_test: O) -> (rec: Option<HitRecord<M>>)
        where O: Fn(usize, Scalar, Scalar) -> Option<HitRecord<M>>
        requires
            forall|o: usize, lo: Scalar, hi: Scalar|
                o < self.objects.len() ==> call_requires(object_test, (o, lo, hi)),
        ensures
            forall|scene: Scene|
                answers_objects(object_test, scene) ==> hit_t(rec) == (#[trigger] scan_end(
                    scene,
                    Found::nothing(t_max as int),
                    t_min as int,
                    0,
                    self.objects.len() as int,
                )).t,
            forall|scene: Scene|
                answers_objects(object_test, scene) && scene.objects_exact()
                    ==> #[trigger] scene.is_nearest(
                    indices(0, self.objects.len() as int),
                    t_min as int,
                    t_max as int,
                    hit_t(rec),
                ),
    {
        nearest_of(self.objects.len(), t_min, t_max, object_test)
    }

    /// The box around the whole list, from the boxes of its objects:
    /// `boxes[i]` is that of object `i`, `None` where it has none. An empty
    /// list has no box.
    pub fn bounding_box(&self, boxes: &Vec<Option<AABB>>) -> (r: Option<AABB>)
        requires
            boxes.len() == self.objects.len(),
        ensures
            r == if self.objects.len() == 0 {
                None
            } else {
                Some(total_box(boxes@))
            },
    {
        if self.objects.len() == 0 {
            return None;
        }
        let mut tot_box = AABB::default();
        let mut first_flag = true;
        let mut i: usize = 0;
        while i < boxes.len()
            invariant
                i <= boxes.len(),
                tot_box == total_box(boxes@.take(i as int)),
                first_flag == !has_box(boxes@.take(i as int)),
            decreases boxes.len() - i,
        {
            proof {
                let upto = boxes@.take(i as int + 1);
                assert(upto.drop_last() =~= boxes@.take(i as int));
                assert(upto.last() == boxes@[i as int]);
                if boxes@[i as int] is Some {
                    assert(upto[i as int] is Some);
                } else if has_box(upto) {
                    let k = choose|k: int| 0 <= k < upto.len() && #[trigger] upto[k] is Some;
                    assert(boxes@.take(i as int)[k] is Some);
                } else if has_box(boxes@.take(i as int)) {
                    let k = choose|k: int|
                        0 <= k < boxes@.take(i as int).len() && #[trigger] boxes@.take(
                            i as int,
                        )[k] is Some;
                    assert(upto[k] is Some);
                }
            }
            if let Some(tmp_box) = boxes[i] {
                if !first_flag {
                    tot_box = AABB::surrounding_box(&tot_box, &tmp_box);
                } else {
                    tot_box = tmp_box;
                    first_flag = false;
                }
            }
            i += 1;
        }
        assert(boxes@.take(i as int) =~= boxes@);
        Some(tot_box)
    }

    /// One object of the list, drawn at random. The list must not be empty.
    pub fn rand_object(&self) -> (r: &H)
        requires
            self.objects.len() > 0,
        ensures
            exists|i: int| 0 <= i < self.objects.len() && self.objects[i] == *r,
    {
        choose_one(&self.objects).unwrap()
    }
}

impl<H> Default for HittableList<H> {
    /// The empty list.
    fn default() -> (r: Self)
        ensures
            r.objects@.len() == 0,
    {
        HittableList { objects: Vec::new() }
    }
}

/// The box of [`total_box`] encloses every box that is there.
pub proof fn lemma_total_box_encloses(boxes: Seq<Option<AABB>>, i: int)
    requires
        0 <= i < boxes.len(),
        boxes[i] is Some,
    ensures
        total_box(boxes).encloses(boxes[i]->0),
    decreases boxes.len(),
{
    let rest = boxes.drop_last();
    if i == boxes.len() - 1 {
        let b = boxes[i]->0;
        if has_box(rest) {
            total_box(rest).lemma_union_encloses(b);
        }
    } else {
        assert(rest[i] == boxes[i]);
        assert(has_box(rest));
        lemma_total_box_encloses(rest, i);
        match boxes.last() {
            None => {},
            Some(b) => {
                total_box(rest).lemma_union_encloses(b);
                total_box(boxes).lemma_encloses_transitive(total_box(rest), boxes[i]->0);
            },
        }
    }
}

/// The box of [`total_box`] is the smallest around the boxes that are
/// there: a box that encloses all of these encloses it.
pub proof fn lemma_total_box_least(boxes: Seq<Option<AABB>>, outer: AABB)
    requires
        has_box(boxes),
        forall|i: int|
            0 <= i < boxes.len() && (#[trigger] boxes[i]) is Some ==> outer.encloses(boxes[i]->0),
    ensures
        outer.encloses(total_box(boxes)),
    decreases boxes.len(),
{
    let rest = boxes.drop_last();
    assert(boxes.len() > 0);
    assert forall|i: int| 0 <= i < rest.len() && (#[trigger] rest[i]) is Some implies outer.encloses(
        rest[i]->0,
    ) by {
        assert(rest[i] == boxes[i]);
    }
    match boxes.last() {
        None => {
            let k = choose|k: int| 0 <= k < boxes.len() && #[trigger] boxes[k] is Some;
            assert(rest[k] is Some);
            lemma_total_box_least(rest, outer);
        },
        Some(b) => {
            assert(boxes[boxes.len() - 1] is Some);
            if has_box(rest) {
                lemma_total_box_least(rest, outer);
                total_box(rest).lemma_union_within(b, outer);
            }
        },
    }
}

} // verus!
