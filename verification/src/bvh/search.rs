//! The bounding volume hierarchy: how a ray is sent through it.

use vstd::prelude::*;
use vstd::seq_lib::*;
use super::aabb::AABB;
use super::bvh_node::{
    all_objects, arena_wf, box_of, branch_wf, hangs_below, height, leaves,
    lemma_box_encloses_leaves, Branch, BvhNode, Child,
};
use crate::basic::Scalar;
use crate::hittable::probe::{lemma_nearest_unique, lemma_right_after_miss, lemma_right_after_object, Found, Scene};
use crate::hittable::{
    answers_objects, hit_t, indices, lemma_scan_end_right, scan_end, HitRecord, Probe,
};

verus! {

/// What the search below `c` ends with, begun with `found`, where every box
/// and object gives the answer that `scene` holds for it.
///
/// An object is asked up to the nearest hit so far. A branch is left out
/// where the ray does not pass its box in that range; else its left side is
/// searched, then its right side, up to what the left side found.
pub open spec fn descend(nodes: Seq<Branch>, scene: Scene, c: Child, t_min: int, found: Found) -> Found
    decreases height(c),
{
    match c {
        Child::Object(o) => found.after(scene.reports(o, t_min, found.closest)),
        Child::Node(i) => {
            if i < nodes.len() && height(nodes[i as int].left) <= i && (nodes[i as int].right matches Some(r)
                ==> height(r) <= i) && scene.passes(nodes[i as int].aabb_box, t_min, found.closest) {
                let left = descend(nodes, scene, nodes[i as int].left, t_min, found);
                match nodes[i as int].right {
                    Some(r) => descend(nodes, scene, r, t_min, left),
                    None => left,
                }
            } else {
                found
            }
        },
    }
}

/// What a search ends with that still has `stack` to go through, the last
/// of it first.
pub open spec fn finish(nodes: Seq<Branch>, scene: Scene, stack: Seq<Child>, t_min: int, found: Found) -> Found
    decreases stack.len(),
{
    if stack.len() == 0 {
        found
    } else {
        finish(
            nodes,
            scene,
            stack.drop_last(),
            t_min,
            descend(nodes, scene, stack.last(), t_min, found),
        )
    }
}

/// The stack after the box of the branch on top has answered: the branch
/// gives way to its children, the left one on top, where the ray passes the
/// box, and to nothing where it does not.
pub open spec fn opened(nodes: Seq<Branch>, stack: Seq<Child>, passes: bool) -> Seq<Child> {
    let rest = stack.drop_last();
    match stack.last() {
        Child::Node(i) => if passes {
            match nodes[i as int].right {
                Some(r) => rest.push(r).push(nodes[i as int].left),
                None => rest.push(nodes[i as int].left),
            }
        } else {
            rest
        },
        Child::Object(_) => rest,
    }
}

/// The number of questions that a search below `c` asks at most.
pub open spec fn weight(nodes: Seq<Branch>, c: Child) -> nat
    decreases height(c),
{
    match c {
        Child::Object(_) => 1,
        Child::Node(i) => {
            if i < nodes.len() && height(nodes[i as int].left) <= i && (nodes[i as int].right matches Some(r)
                ==> height(r) <= i) {
                1 + weight(nodes, nodes[i as int].left) + match nodes[i as int].right {
                    Some(r) => weight(nodes, r),
                    None => 0,
                }
            } else {
                1
            }
        },
    }
}

/// The number of questions that a search with `stack` still to go through
/// asks at most.
pub open spec fn pending(nodes: Seq<Branch>, stack: Seq<Child>) -> nat
    decreases stack.len(),
{
    if stack.len() == 0 {
        0
    } else {
        pending(nodes, stack.drop_last()) + weight(nodes, stack.last())
    }
}

/// One more on the stack is its weight more to ask.
proof fn lemma_pending_push(nodes: Seq<Branch>, stack: Seq<Child>, c: Child)
    ensures
        pending(nodes, stack.push(c)) == pending(nodes, stack) + weight(nodes, c),
{
    assert(stack.push(c).drop_last() =~= stack);
}

/// A search for the nearest hit through a hierarchy.
pub struct Walk<M> {
    /// What is still to be looked at; the last comes first.
    pub stack: Vec<Child>,
    pub t_min: Scalar,
    /// The parameter of the nearest hit so far, `t_max` before any.
    pub closest_so_far: Scalar,
    /// The nearest hit so far.
    pub rec: Option<HitRecord<M>>,
}

impl<M> Walk<M> {
    /// How far the search has come.
    pub open spec fn found(&self) -> Found {
        Found { closest: self.closest_so_far as int, t: hit_t(self.rec) }
    }

    /// Whether the search is one through `bvh`: all that it still has to
    /// look at hangs in that hierarchy.
    pub open spec fn wf(&self, bvh: &BvhNode) -> bool {
        forall|k: int|
            0 <= k < self.stack@.len() ==> hangs_below(
                #[trigger] self.stack@[k],
                bvh.nodes@.len() as int,
                bvh.boxes@.len() as int,
            )
    }

    /// What the search ends with, where every box and object still to be
    /// asked gives the answer that `scene` holds for it.
    pub open spec fn ends_with(&self, bvh: &BvhNode, scene: Scene) -> Found {
        finish(bvh.nodes@, scene, self.stack@, self.t_min as int, self.found())
    }

    /// What the search asks next: of the branch on top, whether the ray
    /// passes its box; of the object on top, where the ray hits it; either
    /// from `t_min` up to the nearest hit so far. With nothing left to look
    /// at the search is over, and what it has found is what it ends with.
    pub fn probe(&self, bvh: &BvhNode) -> (r: Probe)
        requires
            self.wf(bvh),
        ensures
            r == if self.stack@.len() == 0 {
                Probe::Done
            } else {
                match self.stack@.last() {
                    Child::Object(o) => Probe::Object {
                        index: o,
                        t_min: self.t_min,
                        t_max: self.closest_so_far,
                    },
                    Child::Node(i) => Probe::Box {
                        aabb_box: bvh.nodes@[i as int].aabb_box,
                        t_min: self.t_min,
                        t_max: self.closest_so_far,
                    },
                }
            },
            r is Done ==> forall|scene: Scene| #[trigger] self.ends_with(bvh, scene) == self.found(),
    {
        if self.stack.len() == 0 {
            return Probe::Done;
        }
        match self.stack[self.stack.len() - 1] {
            Child::Object(o) => Probe::Object {
                index: o,
                t_min: self.t_min,
                t_max: self.closest_so_far,
            },
            Child::Node(i) => Probe::Box {
                aabb_box: bvh.nodes[i].aabb_box,
                t_min: self.t_min,
                t_max: self.closest_so_far,
            },
        }
    }

    /// Takes the answer of the box that was asked: where the ray passes
    /// it, the branch's children are looked at next, the left one first;
    /// where it does not, the branch is left out. Where the answer is the
    /// one that a scene holds for the box, the search still ends with what it
    /// would have ended with.
    pub fn record_box(&mut self, bvh: &BvhNode, passes: bool)
        requires
            bvh.wf(),
            old(self).wf(bvh),
            old(self).stack@.len() > 0,
            old(self).stack@.last() is Node,
        ensures
            final(self).wf(bvh),
            final(self).stack@ == opened(bvh.nodes@, old(self).stack@, passes),
            final(self).t_min == old(self).t_min,
            final(self).closest_so_far == old(self).closest_so_far,
            final(self).rec == old(self).rec,
            pending(bvh.nodes@, final(self).stack@) < pending(bvh.nodes@, old(self).stack@),
            forall|scene: Scene|
                passes == scene.passes(
                    box_of(bvh.nodes@, bvh.boxes@, old(self).stack@.last()),
                    old(self).t_min as int,
                    old(self).closest_so_far as int,
                ) ==> #[trigger] final(self).ends_with(bvh, scene) == old(self).ends_with(bvh, scene),
    {
        proof {
            assert(hangs_below(
                old(self).stack@[old(self).stack@.len() - 1],
                bvh.nodes@.len() as int,
                bvh.boxes@.len() as int,
            ));
            assert forall|scene: Scene|
                passes == scene.passes(
                    box_of(bvh.nodes@, bvh.boxes@, old(self).stack@.last()),
                    old(self).t_min as int,
                    old(self).closest_so_far as int,
                ) implies finish(
                bvh.nodes@,
                scene,
                opened(bvh.nodes@, old(self).stack@, passes),
                old(self).t_min as int,
                old(self).found(),
            ) == #[trigger] old(self).ends_with(bvh, scene) by {
                lemma_finish_after_box(
                    bvh.nodes@,
                    bvh.boxes@,
                    scene,
                    old(self).stack@,
                    old(self).t_min as int,
                    old(self).found(),
                );
            }
        }
        let top = self.stack.pop().unwrap();
        let ghost rest = self.stack@;
        assert(rest == old(self).stack@.drop_last());
        if passes {
            if let Child::Node(i) = top {
                assert(branch_wf(bvh.nodes@, bvh.boxes@, i as int));
                let branch = bvh.nodes[i];
                if let Some(r) = branch.right {
                    self.stack.push(r);
                    proof {
                        lemma_pending_push(bvh.nodes@, rest, r);
                    }
                }
                proof {
                    lemma_pending_push(bvh.nodes@, self.stack@, branch.left);
                }
                self.stack.push(branch.left);
            }
        }
    }

    /// Takes the answer of the object that was asked: a hit becomes the
    /// nearest so far. Where the answer is the one that a scene holds for
    /// the object, the search still ends with what it would have ended with.
    pub fn record_hit(&mut self, answer: Option<HitRecord<M>>)
        requires
            old(self).stack@.len() > 0,
            old(self).stack@.last() is Object,
        ensures
            final(self).stack@ == old(self).stack@.drop_last(),
            final(self).t_min == old(self).t_min,
            final(self).found() == old(self).found().after(hit_t(answer)),
            forall|nodes: Seq<Branch>|
                pending(nodes, final(self).stack@) < #[trigger] pending(nodes, old(self).stack@),
            forall|bvh: &BvhNode, scene: Scene|
                hit_t(answer) == scene.reports(
                    old(self).stack@.last()->Object_0,
                    old(self).t_min as int,
                    old(self).closest_so_far as int,
                ) ==> #[trigger] final(self).ends_with(bvh, scene) == old(self).ends_with(bvh, scene),
            final(self).rec == if answer is Some {
                answer
            } else {
                old(self).rec
            },
    {
        self.stack.pop();
        if let Some(hit_rec) = answer {
            self.closest_so_far = hit_rec.t;
            self.rec = Some(hit_rec);
        }
    }
}

impl BvhNode {
    /// Begins a search for the nearest hit between `t_min` and `t_max`, to
    /// be taken through the hierarchy step by step, at the root.
    pub fn walk<M>(&self, t_min: Scalar, t_max: Scalar) -> (walk: Walk<M>)
        requires
            self.wf(),
        ensures
            walk.wf(self),
            walk.stack@ == seq![self.root()],
            walk.t_min == t_min,
            walk.closest_so_far == t_max,
            walk.rec is None,
            walk.found() == Found::nothing(t_max as int),
    {
        let mut stack: Vec<Child> = Vec::new();
        stack.push(Child::Node(self.nodes.len() - 1));
        Walk { stack, t_min, closest_so_far: t_max, rec: None }
    }
}

/// An answered box takes the search one step on and leaves its end where
/// it was.
pub proof fn lemma_finish_after_box(nodes: Seq<Branch>, boxes: Seq<AABB>, scene: Scene, stack: Seq<Child>, t_min: int, found: Found)
    requires
        arena_wf(nodes, boxes),
        stack.len() > 0,
        stack.last() matches Child::Node(i) && i < nodes.len(),
    ensures
        finish(nodes, scene, stack, t_min, found) == finish(
            nodes,
            scene,
            opened(
                nodes,
                stack,
                scene.passes(box_of(nodes, boxes, stack.last()), t_min, found.closest),
            ),
            t_min,
            found,
        ),
{
    let i = stack.last()->Node_0;
    let rest = stack.drop_last();
    let b = nodes[i as int];
    assert(branch_wf(nodes, boxes, i as int));
    if scene.passes(b.aabb_box, t_min, found.closest) {
        match b.right {
            Some(r) => {
                let s2 = rest.push(r).push(b.left);
                assert(s2.drop_last() =~= rest.push(r));
                assert(rest.push(r).drop_last() =~= rest);
                assert(finish(nodes, scene, s2, t_min, found) == finish(
                    nodes,
                    scene,
                    rest.push(r),
                    t_min,
                    descend(nodes, scene, b.left, t_min, found),
                ));
            },
            None => {
                let s2 = rest.push(b.left);
                assert(s2.drop_last() =~= rest);
            },
        }
    }
}

/// An answered object takes the search one step on and leaves its end
/// where it was.
pub proof fn lemma_finish_after_object(nodes: Seq<Branch>, scene: Scene, stack: Seq<Child>, t_min: int, found: Found)
    requires
        stack.len() > 0,
        stack.last() is Object,
    ensures
        finish(nodes, scene, stack, t_min, found) == finish(
            nodes,
            scene,
            stack.drop_last(),
            t_min,
            found.after(scene.reports(stack.last()->Object_0, t_min, found.closest)),
        ),
{
}

/// A search that is right so far is right after it has been below `c`, for
/// the objects that hang there as well.
pub proof fn lemma_descend_right(
    nodes: Seq<Branch>,
    boxes: Seq<AABB>,
    scene: Scene,
    c: Child,
    found: Found,
    seen: Set<usize>,
    t_min: int,
    t_max: int,
)
    requires
        arena_wf(nodes, boxes),
        hangs_below(c, nodes.len() as int, boxes.len() as int),
        scene.objects_exact(),
        scene.boxes_sound(boxes),
        found.right(scene, seen, t_min, t_max),
    ensures
        descend(nodes, scene, c, t_min, found).right(
            scene,
            seen.union(leaves(nodes, c).to_set()),
            t_min,
            t_max,
        ),
    decreases height(c),
{
    let under = leaves(nodes, c).to_set();
    match c {
        Child::Object(o) => {
            lemma_right_after_object(scene, found, seen, o, t_min, t_max);
            assert(leaves(nodes, c) =~= seq![o]);
            assert(seq![o][0] == o);
            assert(seen.union(under) =~= seen.insert(o));
        },
        Child::Node(i) => {
            assert(branch_wf(nodes, boxes, i as int));
            let b = nodes[i as int];
            if scene.passes(b.aabb_box, t_min, found.closest) {
                lemma_descend_right(nodes, boxes, scene, b.left, found, seen, t_min, t_max);
                let left = descend(nodes, scene, b.left, t_min, found);
                let seen_left = seen.union(leaves(nodes, b.left).to_set());
                match b.right {
                    Some(r) => {
                        lemma_descend_right(nodes, boxes, scene, r, left, seen_left, t_min, t_max);
                        assert(leaves(nodes, c) =~= leaves(nodes, b.left) + leaves(nodes, r));
                        lemma_concat_to_set(leaves(nodes, b.left), leaves(nodes, r));
                        assert(seen_left.union(leaves(nodes, r).to_set()) =~= seen.union(under));
                    },
                    None => {
                        assert(leaves(nodes, c) =~= leaves(nodes, b.left));
                    },
                }
            } else {
                assert forall|o: usize, u: int| under.contains(o) && t_min <= u <= found.closest implies !#[trigger] scene.meets(
                    o,
                    u,
                ) by {
                    lemma_box_encloses_leaves(nodes, boxes, c, o);
                    if scene.meets(o, u) {
                        assert(scene.passes(b.aabb_box, t_min, found.closest));
                    }
                }
                lemma_right_after_miss(scene, found, seen, under, t_min, t_max);
            }
        },
    }
}

/// The items of two sequences put together are those of the one and those of the other.
proof fn lemma_concat_to_set(a: Seq<usize>, b: Seq<usize>)
    ensures
        (a + b).to_set() =~= a.to_set().union(b.to_set()),
{
    assert forall|x: usize| (a + b).to_set().contains(x) <==> a.to_set().union(b.to_set()).contains(
        x,
    ) by {
        if (a + b).contains(x) {
            let k = choose|k: int| 0 <= k < (a + b).len() && (a + b)[k] == x;
            if k < a.len() {
                assert(a[k] == x);
            } else {
                assert(b[k - a.len()] == x);
            }
        }
        if a.contains(x) {
            let k = choose|k: int| 0 <= k < a.len() && a[k] == x;
            assert((a + b)[k] == x);
        }
        if b.contains(x) {
            let k = choose|k: int| 0 <= k < b.len() && b[k] == x;
            assert((a + b)[a.len() + k] == x);
        }
    }
}

impl BvhNode {
    /// The search through a hierarchy finds the hit that the scan through
    /// the list finds: for every scene whose objects answer exactly and whose
    /// slab test never misses, both end with the same parameter, that of the
    /// nearest meeting of the ray with any object of the list between `t_min`
    /// and `t_max`, or both with none.
    pub proof fn lemma_hit_matches_list(&self, scene: Scene, t_min: int, t_max: int)
        requires
            self.wf(),
            scene.objects_exact(),
            scene.boxes_sound(self.boxes@),
        ensures
            finish(self.nodes@, scene, seq![self.root()], t_min, Found::nothing(t_max)).t == scan_end(
                scene,
                Found::nothing(t_max),
                t_min,
                0,
                self.boxes@.len() as int,
            ).t,
            scene.is_nearest(
                indices(0, self.boxes@.len() as int),
                t_min,
                t_max,
                scan_end(scene, Found::nothing(t_max), t_min, 0, self.boxes@.len() as int).t,
            ),
    {
        let n = self.boxes@.len() as int;
        let start = Found::nothing(t_max);
        let none = Set::<usize>::empty();
        assert(start.right(scene, none, t_min, t_max));
        assert(self.boxes@.len() == self.boxes.len());
        lemma_scan_end_right(scene, start, none, t_min, t_max, 0, n);
        lemma_descend_right(self.nodes@, self.boxes@, scene, self.root(), start, none, t_min, t_max);
        let all = indices(0, n);
        assert(none.union(all) =~= all);
        assert(self.objects().to_set() =~= all) by {
            assert forall|o: usize| self.objects().to_set().contains(o) <==> all.contains(o) by {
                to_multiset_contains(self.objects(), o);
                to_multiset_contains(all_objects(self.boxes@.len()), o);
                if all.contains(o) {
                    assert(all_objects(self.boxes@.len())[o as int] == o);
                }
                if all_objects(self.boxes@.len()).contains(o) {
                    let k = choose|k: int|
                        0 <= k < all_objects(self.boxes@.len()).len() && all_objects(
                            self.boxes@.len(),
                        )[k] == o;
                    assert(o == k);
                }
            }
        }
        assert(none.union(self.objects().to_set()) =~= all);
        let stack = seq![self.root()];
        assert(stack.drop_last() =~= Seq::<Child>::empty());
        assert(stack.last() == self.root());
        assert(finish(self.nodes@, scene, stack, t_min, start) == descend(
            self.nodes@,
            scene,
            self.root(),
            t_min,
            start,
        )) by {
            let d = descend(self.nodes@, scene, self.root(), t_min, start);
            assert(finish(self.nodes@, scene, stack.drop_last(), t_min, d) == d);
        }
        lemma_nearest_unique(
            scene,
            all,
            t_min,
            t_max,
            descend(self.nodes@, scene, self.root(), t_min, start).t,
            scan_end(scene, start, t_min, 0, n).t,
        );
    }
}

/// Whether `box_test` answers as the slab test of `scene` does.
pub open spec fn answers_boxes<B: Fn(AABB, Scalar, Scalar) -> bool>(box_test: B, scene: Scene) -> bool {
    forall|b: AABB, lo: Scalar, hi: Scalar, r: bool|
        #[trigger] call_ensures(box_test, (b, lo, hi), r) ==> r == scene.passes(
            b,
            lo as int,
            hi as int,
        )
}

impl BvhNode {
    /// The nearest hit of a ray on the objects of the hierarchy between
    /// `t_min` and `t_max`. `box_test(b, lo, hi)` is asked whether the ray
    /// passes box `b` between `lo` and `hi`, and `object_test(i, lo, hi)` for
    /// the hit of the ray on object `i` there.
    ///
    /// A branch whose box the ray does not pass is left out; of the others
    /// the left side is searched first, and the right side only up to what
    /// the left side found. For every scene in which `object_test` gives each
    /// object's nearest meeting with the ray and `box_test` never misses,
    /// what comes back is the nearest meeting of the ray with any object of
    /// the list: what a scan through the list finds.
    pub fn hit<M, B, O>(&self, t_min: Scalar, t_max: Scalar, box_test: B, object_test: O) -> (rec: Option<HitRecord<M>>)
        where
            B: Fn(AABB, Scalar, Scalar) -> bool,
            O: Fn(usize, Scalar, Scalar) -> Option<HitRecord<M>>,
        requires
            self.wf(),
            forall|b: AABB, lo: Scalar, hi: Scalar| call_requires(box_test, (b, lo, hi)),
            forall|o: usize, lo: Scalar, hi: Scalar|
                o < self.boxes.len() ==> call_requires(object_test, (o, lo, hi)),
        ensures
            forall|scene: Scene|
                answers_boxes(box_test, scene) && answers_objects(object_test, scene) ==> hit_t(rec)
                    == (#[trigger] finish(
                    self.nodes@,
                    scene,
                    seq![self.root()],
                    t_min as int,
                    Found::nothing(t_max as int),
                )).t,
            forall|scene: Scene|
                answers_boxes(box_test, scene) && answers_objects(object_test, scene)
                    && scene.objects_exact() && scene.boxes_sound(self.boxes@)
                    ==> #[trigger] scene.is_nearest(
                    indices(0, self.boxes@.len() as int),
                    t_min as int,
                    t_max as int,
                    hit_t(rec),
                ),
    {
        let mut walk = self.walk::<M>(t_min, t_max);
        loop
            invariant
                self.wf(),
                walk.wf(self),
                walk.t_min == t_min,
                forall|b: AABB, lo: Scalar, hi: Scalar| call_requires(box_test, (b, lo, hi)),
                forall|o: usize, lo: Scalar, hi: Scalar|
                    o < self.boxes.len() ==> call_requires(object_test, (o, lo, hi)),
                forall|scene: Scene|
                    answers_boxes(box_test, scene) && answers_objects(object_test, scene)
                        ==> #[trigger] walk.ends_with(self, scene) == finish(
                        self.nodes@,
                        scene,
                        seq![self.root()],
                        t_min as int,
                        Found::nothing(t_max as int),
                    ),
            decreases pending(self.nodes@, walk.stack@),
        {
            let ghost before = walk;
            match walk.probe(self) {
                Probe::Done => {
                    proof {
                        assert forall|scene: Scene|
                            answers_boxes(box_test, scene) && answers_objects(
                                object_test,
                                scene,
                            ) implies hit_t(walk.rec) == (#[trigger] finish(
                            self.nodes@,
                            scene,
                            seq![self.root()],
                            t_min as int,
                            Found::nothing(t_max as int),
                        )).t by {
                            assert(walk.ends_with(self, scene) == walk.found());
                        }
                        assert forall|scene: Scene|
                            answers_boxes(box_test, scene) && answers_objects(object_test, scene)
                                && scene.objects_exact() && scene.boxes_sound(
                                self.boxes@,
                            ) implies #[trigger] scene.is_nearest(
                            indices(0, self.boxes@.len() as int),
                            t_min as int,
                            t_max as int,
                            hit_t(walk.rec),
                        ) by {
                            assert(walk.ends_with(self, scene) == walk.found());
                            self.lemma_hit_matches_list(scene, t_min as int, t_max as int);
                        }
                    }
                    return walk.rec;
                },
                Probe::Box { aabb_box, t_min: lo, t_max: hi } => {
                    let passes = box_test(aabb_box, lo, hi);
                    walk.record_box(self, passes);
                    proof {
                        assert forall|scene: Scene|
                            answers_boxes(box_test, scene) && answers_objects(
                                object_test,
                                scene,
                            ) implies #[trigger] walk.ends_with(self, scene) == before.ends_with(
                            self,
                            scene,
                        ) by {
                            assert(passes == scene.passes(aabb_box, lo as int, hi as int));
                        }
                    }
                },
                Probe::Object { index, t_min: lo, t_max: hi } => {
                    assert(hangs_below(
                        walk.stack@[walk.stack@.len() - 1],
                        self.nodes@.len() as int,
                        self.boxes@.len() as int,
                    ));
                    let answer = object_test(index, lo, hi);
                    let ghost t = hit_t(answer);
                    walk.record_hit(answer);
                    proof {
                        assert forall|k: int| 0 <= k < walk.stack@.len() implies hangs_below(
                            #[trigger] walk.stack@[k],
                            self.nodes@.len() as int,
                            self.boxes@.len() as int,
                        ) by {
                            assert(walk.stack@[k] == before.stack@[k]);
                        }
                        assert forall|scene: Scene|
                            answers_boxes(box_test, scene) && answers_objects(
                                object_test,
                                scene,
                            ) implies #[trigger] walk.ends_with(self, scene) == before.ends_with(
                            self,
                            scene,
                        ) by {
                            assert(t == scene.reports(index, lo as int, hi as int));
                        }
                    }
                },
            }
        }
    }
}

} // verus!
