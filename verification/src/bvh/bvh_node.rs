//! The bounding volume hierarchy: how it is built.

use vstd::prelude::*;
use vstd::seq_lib::*;
use rand::Rng;
use super::aabb::AABB;
use crate::basic::Scalar;
use crate::hittable::HittableList;

verus! {

/// What hangs below a branch of the hierarchy: an object, by its index in
/// the list that the hierarchy was built over, or another branch, by its index
/// in the hierarchy.
#[derive(Copy, Clone, Debug, PartialEq, Eq, Structural)]
pub enum Child {
    Object(usize),
    Node(usize),
}

/// One branch: its one or two children, the box around them, and the axis
/// along which its objects were ordered.
#[derive(Copy, Clone, Debug, PartialEq, Eq, Structural)]
pub struct Branch {
    pub left: Child,
    pub right: Option<Child>,
    pub aabb_box: AABB,
    pub axis: usize,
}

/// A bounding volume hierarchy over a list of objects, known by their boxes.
///
/// The branches lie in one vector, children before their parents; the last
/// one is the root.
#[derive(Debug)]
pub struct BvhNode {
    pub nodes: Vec<Branch>,
    pub boxes: Vec<AABB>,
}

/// How high a child stands in the hierarchy: an object at 0, branch `i` at `i + 1`.
pub open spec fn height(c: Child) -> nat {
    match c {
        Child::Object(_) => 0,
        Child::Node(i) => (i + 1) as nat,
    }
}

/// Whether `c` may hang below branch `i`: an object of the list, or an earlier branch.
pub open spec fn hangs_below(c: Child, i: int, n_objects: int) -> bool {
    match c {
        Child::Object(o) => o < n_objects,
        Child::Node(j) => j < i,
    }
}

/// The objects below `c`, from left to right.
pub open spec fn leaves(nodes: Seq<Branch>, c: Child) -> Seq<usize>
    decreases height(c),
{
    match c {
        Child::Object(o) => seq![o],
        Child::Node(i) => {
            if i < nodes.len() && height(nodes[i as int].left) <= i && (nodes[i as int].right matches Some(r)
                ==> height(r) <= i) {
                leaves(nodes, nodes[i as int].left) + (match nodes[i as int].right {
                    Some(r) => leaves(nodes, r),
                    None => Seq::empty(),
                })
            } else {
                Seq::empty()
            }
        },
    }
}

/// The box of `c`: an object's own, a branch's recorded one.
pub open spec fn box_of(nodes: Seq<Branch>, boxes: Seq<AABB>, c: Child) -> AABB {
    match c {
        Child::Object(o) => boxes[o as int],
        Child::Node(i) => nodes[i as int].aabb_box,
    }
}

/// What holds of branch `i` in a hierarchy over `boxes`.
///
/// A branch with one child holds one object. A branch with two holds two
/// objects or two earlier branches; its box is the box around theirs; along
/// its axis no object on the left has a larger key than one on the right; and
/// the left side holds half of its objects, rounded down.
pub open spec fn branch_wf(nodes: Seq<Branch>, boxes: Seq<AABB>, i: int) -> bool {
    let b = nodes[i];
    &&& b.axis < 3
    &&& hangs_below(b.left, i, boxes.len() as int)
    &&& match b.right {
        None => b.left is Object && b.aabb_box == box_of(nodes, boxes, b.left),
        Some(r) => {
            &&& hangs_below(r, i, boxes.len() as int)
            &&& (b.left is Object <==> r is Object)
            &&& b.aabb_box == box_of(nodes, boxes, b.left).union(box_of(nodes, boxes, r))
            &&& forall|x: usize, y: usize|
                leaves(nodes, b.left).contains(x) && leaves(nodes, r).contains(y) ==> key(
                    boxes,
                    x,
                    b.axis as int,
                ) <= key(boxes, y, b.axis as int)
            &&& leaves(nodes, b.left).len() == (leaves(nodes, b.left).len() + leaves(
                nodes,
                r,
            ).len()) / 2
        },
    }
}

/// Whether every branch of `nodes` is as [`branch_wf`] says.
pub open spec fn arena_wf(nodes: Seq<Branch>, boxes: Seq<AABB>) -> bool {
    forall|i: int| 0 <= i < nodes.len() ==> #[trigger] branch_wf(nodes, boxes, i)
}

/// Whether `a` is the beginning of `b`.
pub open spec fn begins(a: Seq<Branch>, b: Seq<Branch>) -> bool {
    a.len() <= b.len() && forall|i: int| 0 <= i < a.len() ==> a[i] == b[i]
}

/// The objects `0, 1, ..` up to `n`, in that order.
pub open spec fn all_objects(n: nat) -> Seq<usize> {
    Seq::new(n, |i: int| i as usize)
}

/// The number by which the hierarchy orders object `o` along `axis`: the
/// least coordinate of its box there.
pub open spec fn key(boxes: Seq<AABB>, o: usize, axis: int) -> Scalar {
    boxes[o as int].min.axis(axis)
}

/// Whether every one of `ids` names one of `n` objects.
pub open spec fn all_below(ids: Seq<usize>, n: int) -> bool {
    forall|i: int| 0 <= i < ids.len() ==> #[trigger] ids[i] < n
}

/// Whether `ids` runs from small keys to large ones along `axis`.
pub open spec fn sorted_by_key(ids: Seq<usize>, boxes: Seq<AABB>, axis: int) -> bool {
    forall|i: int, j: int|
        0 <= i <= j < ids.len() ==> key(boxes, #[trigger] ids[i], axis) <= key(
            boxes,
            #[trigger] ids[j],
            axis,
        )
}

/// `rand::Rng::gen_range` over `0..3` on the thread's generator: one of the
/// three axes, whichever the generator gives.
#[verifier::external_body]
fn random_axis() -> (axis: usize)
    ensures
        axis < 3,
{
    rand::thread_rng().gen_range(0usize..3usize)
}

/// Taking the first item off a sequence takes one occurrence of it off the multiset.
proof fn lemma_skip_step(s: Seq<usize>, i: int)
    requires
        0 <= i < s.len(),
    ensures
        s.skip(i).to_multiset() =~= s.skip(i + 1).to_multiset().insert(s[i]),
{
    let one = seq![s[i]];
    assert(s.skip(i) =~= one + s.skip(i + 1));
    lemma_multiset_commutative(one, s.skip(i + 1));
    assert(one =~= Seq::<usize>::empty().push(s[i]));
    Seq::<usize>::empty().to_multiset_ensures();
    assert(Seq::<usize>::empty().to_multiset() =~= vstd::multiset::Multiset::empty()) by {
        broadcast use vstd::seq_lib::group_to_multiset_ensures;
        assert(Seq::<usize>::empty().to_multiset().len() == 0);
    }
}

/// The key of object `o` along `axis`.
fn key_of(boxes: &Vec<AABB>, o: usize, axis: usize) -> (k: Scalar)
    requires
        o < boxes.len(),
        axis < 3,
    ensures
        k == key(boxes@, o, axis as int),
{
    boxes[o].min.index(axis)
}

/// Merges two sorted runs into one.
fn merge(left: &Vec<usize>, right: &Vec<usize>, boxes: &Vec<AABB>, axis: usize) -> (out: Vec<usize>)
    requires
        axis < 3,
        all_below(left@, boxes.len() as int),
        all_below(right@, boxes.len() as int),
        sorted_by_key(left@, boxes@, axis as int),
        sorted_by_key(right@, boxes@, axis as int),
    ensures
        sorted_by_key(out@, boxes@, axis as int),
        all_below(out@, boxes.len() as int),
        out@.to_multiset() =~= left@.to_multiset().add(right@.to_multiset()),
{
    let mut out: Vec<usize> = Vec::new();
    let mut i: usize = 0;
    let mut j: usize = 0;
    proof {
        assert(left@.skip(0) =~= left@);
        assert(right@.skip(0) =~= right@);
        broadcast use vstd::seq_lib::group_to_multiset_ensures;
        assert(out@.to_multiset().len() == 0);
        assert(out@.to_multiset() =~= vstd::multiset::Multiset::empty());
    }
    while i < left.len() || j < right.len()
        invariant
            axis < 3,
            i <= left.len(),
            j <= right.len(),
            all_below(left@, boxes.len() as int),
            all_below(right@, boxes.len() as int),
            all_below(out@, boxes.len() as int),
            sorted_by_key(left@, boxes@, axis as int),
            sorted_by_key(right@, boxes@, axis as int),
            sorted_by_key(out@, boxes@, axis as int),
            forall|k: int, p: int|
                0 <= k < out.len() && i <= p < left.len() ==> key(boxes@, #[trigger] out@[k], axis as int)
                    <= key(boxes@, #[trigger] left@[p], axis as int),
            forall|k: int, p: int|
                0 <= k < out.len() && j <= p < right.len() ==> key(boxes@, #[trigger] out@[k], axis as int)
                    <= key(boxes@, #[trigger] right@[p], axis as int),
            out@.to_multiset().add(left@.skip(i as int).to_multiset()).add(
                right@.skip(j as int).to_multiset(),
            ) =~= left@.to_multiset().add(right@.to_multiset()),
        decreases left.len() - i + right.len() - j,
    {
        let take_left = if i >= left.len() {
            false
        } else if j >= right.len() {
            true
        } else {
            !(key_of(boxes, right[j], axis) < key_of(boxes, left[i], axis))
        };
        let ghost before = out@;
        if take_left {
            let id = left[i];
            out.push(id);
            proof {
                lemma_skip_step(left@, i as int);
                to_multiset_build(before, id);
                assert forall|a: int, b: int| 0 <= a <= b < out@.len() implies key(
                    boxes@,
                    #[trigger] out@[a],
                    axis as int,
                ) <= key(boxes@, #[trigger] out@[b], axis as int) by {
                    if b < before.len() {
                        assert(out@[a] == before[a] && out@[b] == before[b]);
                    } else if a < before.len() {
                        assert(out@[a] == before[a]);
                    }
                }
            }
            i += 1;
        } else {
            let id = right[j];
            out.push(id);
            proof {
                lemma_skip_step(right@, j as int);
                to_multiset_build(before, id);
                assert forall|a: int, b: int| 0 <= a <= b < out@.len() implies key(
                    boxes@,
                    #[trigger] out@[a],
                    axis as int,
                ) <= key(boxes@, #[trigger] out@[b], axis as int) by {
                    if b < before.len() {
                        assert(out@[a] == before[a] && out@[b] == before[b]);
                    } else if a < before.len() {
                        assert(out@[a] == before[a]);
                    }
                }
            }
            j += 1;
        }
    }
    proof {
        broadcast use vstd::seq_lib::group_to_multiset_ensures;
        assert(left@.skip(i as int).to_multiset().len() == 0);
        assert(right@.skip(j as int).to_multiset().len() == 0);
        assert(left@.skip(i as int).to_multiset() =~= vstd::multiset::Multiset::empty());
        assert(right@.skip(j as int).to_multiset() =~= vstd::multiset::Multiset::empty());
    }
    out
}

/// Orders objects by their keys along `axis`, small to large.
///
/// What comes out holds the objects that went in, each as often as before.
pub fn sort_by_axis(ids: Vec<usize>, boxes: &Vec<AABB>, axis: usize) -> (out: Vec<usize>)
    requires
        axis < 3,
        all_below(ids@, boxes.len() as int),
    ensures
        sorted_by_key(out@, boxes@, axis as int),
        all_below(out@, boxes.len() as int),
        out@.to_multiset() =~= ids@.to_multiset(),
        out.len() == ids.len(),
    decreases ids.len(),
{
    if ids.len() <= 1 {
        return ids;
    }
    let ghost whole = ids@;
    let mut left = ids;
    let right = left.split_off(left.len() / 2);
    proof {
        assert(whole =~= left@ + right@);
        lemma_multiset_commutative(left@, right@);
    }
    let left = sort_by_axis(left, boxes, axis);
    let right = sort_by_axis(right, boxes, axis);
    let out = merge(&left, &right, boxes, axis);
    proof {
        out@.to_multiset_ensures();
        whole.to_multiset_ensures();
    }
    out
}

/// Branches added behind a hierarchy change nothing below an earlier child.
pub proof fn lemma_leaves_kept(a: Seq<Branch>, b: Seq<Branch>, c: Child)
    requires
        begins(a, b),
        height(c) <= a.len(),
    ensures
        leaves(b, c) == leaves(a, c),
    decreases height(c),
{
    match c {
        Child::Object(_) => {},
        Child::Node(i) => {
            assert(a[i as int] == b[i as int]);
            if height(a[i as int].left) <= i && (a[i as int].right matches Some(r) ==> height(r)
                <= i) {
                lemma_leaves_kept(a, b, a[i as int].left);
                if let Some(r) = a[i as int].right {
                    lemma_leaves_kept(a, b, r);
                }
            }
        },
    }
}

/// Branches added behind a well-formed hierarchy leave its branches well formed.
pub proof fn lemma_branch_wf_kept(a: Seq<Branch>, b: Seq<Branch>, boxes: Seq<AABB>, i: int)
    requires
        begins(a, b),
        0 <= i < a.len(),
        branch_wf(a, boxes, i),
    ensures
        branch_wf(b, boxes, i),
{
    let br = a[i];
    assert(b[i] == br);
    lemma_leaves_kept(a, b, br.left);
    match br.left {
        Child::Node(j) => {
            assert(a[j as int] == b[j as int]);
        },
        Child::Object(_) => {},
    }
    if let Some(r) = br.right {
        lemma_leaves_kept(a, b, r);
        match r {
            Child::Node(j) => {
                assert(a[j as int] == b[j as int]);
            },
            Child::Object(_) => {},
        }
    }
}

/// In a well-formed hierarchy the box of a child encloses the box of every
/// object below it.
pub proof fn lemma_box_encloses_leaves(nodes: Seq<Branch>, boxes: Seq<AABB>, c: Child, o: usize)
    requires
        arena_wf(nodes, boxes),
        height(c) <= nodes.len(),
        c matches Child::Object(p) ==> p < boxes.len(),
        leaves(nodes, c).contains(o),
    ensures
        o < boxes.len(),
        box_of(nodes, boxes, c).encloses(boxes[o as int]),
    decreases height(c),
{
    match c {
        Child::Object(p) => {
            assert(leaves(nodes, c) =~= seq![p]);
            assert(seq![p][0] == p);
        },
        Child::Node(i) => {
            assert(branch_wf(nodes, boxes, i as int));
            let b = nodes[i as int];
            let l = leaves(nodes, b.left);
            match b.right {
                None => {
                    assert(leaves(nodes, c) =~= l);
                    lemma_box_encloses_leaves(nodes, boxes, b.left, o);
                },
                Some(r) => {
                    let rr = leaves(nodes, r);
                    assert(leaves(nodes, c) =~= l + rr);
                    let bl = box_of(nodes, boxes, b.left);
                    let brr = box_of(nodes, boxes, r);
                    bl.lemma_union_encloses(brr);
                    if l.contains(o) {
                        lemma_box_encloses_leaves(nodes, boxes, b.left, o);
                        b.aabb_box.lemma_encloses_transitive(bl, boxes[o as int]);
                    } else {
                        let k = choose|k: int| 0 <= k < (l + rr).len() && (l + rr)[k] == o;
                        assert(k >= l.len());
                        assert(rr[k - l.len()] == o);
                        lemma_box_encloses_leaves(nodes, boxes, r, o);
                        b.aabb_box.lemma_encloses_transitive(brr, boxes[o as int]);
                    }
                },
            }
        },
    }
}

/// In a well-formed hierarchy the box of a child is the smallest around the
/// boxes of the objects below it: a box that encloses all of these encloses it.
pub proof fn lemma_box_least(nodes: Seq<Branch>, boxes: Seq<AABB>, c: Child, outer: AABB)
    requires
        arena_wf(nodes, boxes),
        height(c) <= nodes.len(),
        c matches Child::Object(p) ==> p < boxes.len(),
        forall|o: usize|
            leaves(nodes, c).contains(o) && o < boxes.len() ==> outer.encloses(
                #[trigger] boxes[o as int],
            ),
    ensures
        outer.encloses(box_of(nodes, boxes, c)),
    decreases height(c),
{
    match c {
        Child::Object(p) => {
            assert(leaves(nodes, c) =~= seq![p]);
            assert(seq![p][0] == p);
            assert(leaves(nodes, c).contains(p));
        },
        Child::Node(i) => {
            assert(branch_wf(nodes, boxes, i as int));
            let b = nodes[i as int];
            let l = leaves(nodes, b.left);
            match b.right {
                None => {
                    assert(leaves(nodes, c) =~= l);
                    lemma_box_least(nodes, boxes, b.left, outer);
                },
                Some(r) => {
                    let rr = leaves(nodes, r);
                    assert(leaves(nodes, c) =~= l + rr);
                    assert forall|o: usize| l.contains(o) && o < boxes.len() implies outer.encloses(
                        #[trigger] boxes[o as int],
                    ) by {
                        let k = choose|k: int| 0 <= k < l.len() && l[k] == o;
                        assert((l + rr)[k] == o);
                    }
                    assert forall|o: usize| rr.contains(o) && o < boxes.len() implies outer.encloses(
                        #[trigger] boxes[o as int],
                    ) by {
                        let k = choose|k: int| 0 <= k < rr.len() && rr[k] == o;
                        assert((l + rr)[l.len() + k] == o);
                    }
                    lemma_box_least(nodes, boxes, b.left, outer);
                    lemma_box_least(nodes, boxes, r, outer);
                    box_of(nodes, boxes, b.left).lemma_union_within(
                        box_of(nodes, boxes, r),
                        outer,
                    );
                },
            }
        },
    }
}

impl BvhNode {
    /// A hierarchy is well formed where it has a root, every branch is as
    /// [`branch_wf`] says, and every object of the list hangs in it exactly
    /// once.
    pub open spec fn wf(&self) -> bool {
        &&& self.nodes.len() > 0
        &&& arena_wf(self.nodes@, self.boxes@)
        &&& self.objects().to_multiset() =~= all_objects(self.boxes@.len()).to_multiset()
    }

    /// The root: the last branch.
    pub open spec fn root(&self) -> Child {
        Child::Node((self.nodes.len() - 1) as usize)
    }

    /// The objects of the hierarchy, as they hang from left to right.
    pub open spec fn objects(&self) -> Seq<usize> {
        leaves(self.nodes@, self.root())
    }

    /// Adds to `nodes` the branches of a hierarchy over the objects `ids`,
    /// and returns the index of its root.
    fn build(nodes: &mut Vec<Branch>, boxes: &Vec<AABB>, ids: Vec<usize>) -> (root: usize)
        requires
            ids.len() > 0,
            all_below(ids@, boxes.len() as int),
            arena_wf(old(nodes)@, boxes@),
        ensures
            arena_wf(final(nodes)@, boxes@),
            begins(old(nodes)@, final(nodes)@),
            root == final(nodes)@.len() - 1,
            root >= old(nodes)@.len(),
            leaves(final(nodes)@, Child::Node(root)).to_multiset() =~= ids@.to_multiset(),
        decreases ids.len(),
    {
        let axis = random_axis();
        let ghost before = nodes@;
        let span = ids.len();
        if span == 1 {
            let o = ids[0];
            let branch = Branch { left: Child::Object(o), right: None, aabb_box: boxes[o], axis };
            nodes.push(branch);
            let root = nodes.len() - 1;
            proof {
                assert forall|i: int| 0 <= i < nodes@.len() implies #[trigger] branch_wf(
                    nodes@,
                    boxes@,
                    i,
                ) by {
                    if i < before.len() {
                        lemma_branch_wf_kept(before, nodes@, boxes@, i);
                    }
                }
                assert(leaves(nodes@, Child::Object(o)) =~= seq![o]);
                assert(leaves(nodes@, Child::Node(root)) =~= seq![o]);
                assert(ids@ =~= seq![o]);
            }
            root
        } else if span == 2 {
            let a = ids[0];
            let b = ids[1];
            let (l, r) = if key_of(boxes, b, axis) < key_of(boxes, a, axis) {
                (b, a)
            } else {
                (a, b)
            };
            let branch = Branch {
                left: Child::Object(l),
                right: Some(Child::Object(r)),
                aabb_box: AABB::surrounding_box(&boxes[l], &boxes[r]),
                axis,
            };
            nodes.push(branch);
            let root = nodes.len() - 1;
            proof {
                assert(leaves(nodes@, Child::Object(l)) =~= seq![l]);
                assert(leaves(nodes@, Child::Object(r)) =~= seq![r]);
                assert forall|x: usize, y: usize|
                    leaves(nodes@, Child::Object(l)).contains(x) && leaves(
                        nodes@,
                        Child::Object(r),
                    ).contains(y) implies key(boxes@, x, axis as int) <= key(
                    boxes@,
                    y,
                    axis as int,
                ) by {
                    assert(seq![l][0] == l && seq![r][0] == r);
                }
                assert forall|i: int| 0 <= i < nodes@.len() implies #[trigger] branch_wf(
                    nodes@,
                    boxes@,
                    i,
                ) by {
                    if i < before.len() {
                        lemma_branch_wf_kept(before, nodes@, boxes@, i);
                    }
                }
                assert(leaves(nodes@, Child::Node(root)) =~= seq![l] + seq![r]);
                assert(ids@ =~= seq![a] + seq![b]);
                lemma_multiset_commutative(seq![l], seq![r]);
                lemma_multiset_commutative(seq![a], seq![b]);
            }
            root
        } else {
            let sorted = sort_by_axis(ids, boxes, axis);
            let ghost whole = sorted@;
            let mut left_ids = sorted;
            let right_ids = left_ids.split_off(span / 2);
            proof {
                assert(whole =~= left_ids@ + right_ids@);
                lemma_multiset_commutative(left_ids@, right_ids@);
            }
            let ghost lseq = left_ids@;
            let ghost rseq = right_ids@;
            let l = Self::build(nodes, boxes, left_ids);
            let ghost middle = nodes@;
            let r = Self::build(nodes, boxes, right_ids);
            let ghost after = nodes@;
            let branch = Branch {
                left: Child::Node(l),
                right: Some(Child::Node(r)),
                aabb_box: AABB::surrounding_box(&nodes[l].aabb_box, &nodes[r].aabb_box),
                axis,
            };
            nodes.push(branch);
            let root = nodes.len() - 1;
            proof {
                lemma_leaves_kept(middle, after, Child::Node(l));
                lemma_leaves_kept(after, nodes@, Child::Node(l));
                lemma_leaves_kept(after, nodes@, Child::Node(r));
                let ll = leaves(nodes@, Child::Node(l));
                let rr = leaves(nodes@, Child::Node(r));
                assert(ll.to_multiset() =~= lseq.to_multiset());
                assert(rr.to_multiset() =~= rseq.to_multiset());
                to_multiset_len(ll);
                to_multiset_len(rr);
                to_multiset_len(lseq);
                to_multiset_len(rseq);
                assert forall|x: usize, y: usize| ll.contains(x) && rr.contains(y) implies key(
                    boxes@,
                    x,
                    axis as int,
                ) <= key(boxes@, y, axis as int) by {
                    to_multiset_contains(ll, x);
                    to_multiset_contains(lseq, x);
                    to_multiset_contains(rr, y);
                    to_multiset_contains(rseq, y);
                    let p = choose|p: int| 0 <= p < lseq.len() && lseq[p] == x;
                    let q = choose|q: int| 0 <= q < rseq.len() && rseq[q] == y;
                    assert(whole[p] == x);
                    assert(whole[lseq.len() + q] == y);
                }
                assert forall|i: int| 0 <= i < nodes@.len() implies #[trigger] branch_wf(
                    nodes@,
                    boxes@,
                    i,
                ) by {
                    if i < after.len() {
                        lemma_branch_wf_kept(after, nodes@, boxes@, i);
                    }
                }
                assert(leaves(nodes@, Child::Node(root)) =~= ll + rr);
                lemma_multiset_commutative(ll, rr);
            }
            root
        }
    }

    /// Builds the hierarchy over a list of objects, given by their boxes:
    /// object `i` is the one with box `boxes[i]`.
    ///
    /// One object makes a branch with one child, two make a branch with
    /// both. More are ordered by their keys along an axis drawn at random
    /// for this branch, and split in the middle into two hierarchies.
    pub fn new_from_vec(boxes: Vec<AABB>) -> (r: Self)
        requires
            boxes.len() > 0,
        ensures
            r.wf(),
            r.boxes@ == boxes@,
    {
        let mut ids: Vec<usize> = Vec::new();
        let mut i: usize = 0;
        while i < boxes.len()
            invariant
                i <= boxes.len(),
                ids@ =~= all_objects(i as nat),
            decreases boxes.len() - i,
        {
            ids.push(i);
            i += 1;
        }
        let mut nodes: Vec<Branch> = Vec::new();
        let root = Self::build(&mut nodes, &boxes, ids);
        BvhNode { nodes, boxes }
    }

    /// Builds the hierarchy over the objects of a list, as
    /// [`BvhNode::new_from_vec`] does. `boxes[i]` is the box of object `i` of
    /// the list.
    pub fn new_from_list<H>(hittable_list: &HittableList<H>, boxes: Vec<AABB>) -> (r: Self)
        requires
            hittable_list.objects.len() > 0,
            boxes.len() == hittable_list.objects.len(),
        ensures
            r.wf(),
            r.boxes@ == boxes@,
    {
        Self::new_from_vec(boxes)
    }

    /// The box around everything in the hierarchy.
    pub fn bounding_box(&self) -> (r: Option<AABB>)
        requires
            self.wf(),
        ensures
            r == Some(box_of(self.nodes@, self.boxes@, self.root())),
    {
        Some(self.nodes[self.nodes.len() - 1].aabb_box)
    }

    /// Every object of the list hangs in the hierarchy exactly once, and
    /// the box of the root encloses the box of each.
    pub proof fn lemma_objects(&self, o: usize)
        requires
            self.wf(),
            o < self.boxes@.len(),
        ensures
            self.objects().contains(o),
            self.objects().no_duplicates(),
            self.objects().len() == self.boxes@.len(),
            box_of(self.nodes@, self.boxes@, self.root()).encloses(self.boxes@[o as int]),
    {
        let all = all_objects(self.boxes@.len());
        assert(self.boxes@.len() == self.boxes.len());
        to_multiset_len(all);
        to_multiset_len(self.objects());
        to_multiset_contains(all, o);
        to_multiset_contains(self.objects(), o);
        assert(all[o as int] == o);
        assert(all.contains(o));
        assert forall|i: int, j: int| 0 <= i < all.len() && 0 <= j < all.len() && i != j implies all[i]
            != all[j] by {
            assert(all[i] == i as usize && all[j] == j as usize);
        }
        all.lemma_multiset_has_no_duplicates();
        self.objects().lemma_multiset_has_no_duplicates_conv();
        lemma_box_encloses_leaves(self.nodes@, self.boxes@, self.root(), o);
    }
}

} // verus!
