//! What a ray meets: the model that the searches for the nearest hit are
//! stated over.

use vstd::prelude::*;
use crate::bvh::aabb::AABB;

verus! {

/// A scene as one ray sees it, and the answers that its objects and boxes
/// give when asked.
///
/// `crossing(o, t)` says that the ray meets object `o` at parameter `t`.
/// `answer(o, t_min, t_max)` is the parameter that object `o` reports when
/// asked for a hit between `t_min` and `t_max`. `box_test(b, t_min, t_max)` is
/// what the slab test says of box `b` over that range.
pub struct Scene {
    pub crossing: spec_fn(usize, int) -> bool,
    pub answer: spec_fn(usize, int, int) -> Option<int>,
    pub box_test: spec_fn(AABB, int, int) -> bool,
}

impl Scene {
    /// Whether the ray meets object `o` at parameter `t`.
    pub open spec fn meets(self, o: usize, t: int) -> bool {
        (self.crossing)(o, t)
    }

    /// What object `o` reports over `t_min ..= t_max`.
    pub open spec fn reports(self, o: usize, t_min: int, t_max: int) -> Option<int> {
        (self.answer)(o, t_min, t_max)
    }

    /// What the slab test says of box `b` over `t_min ..= t_max`.
    pub open spec fn passes(self, b: AABB, t_min: int, t_max: int) -> bool {
        (self.box_test)(b, t_min, t_max)
    }

    /// Whether `r` is the nearest meeting of the ray with the objects
    /// `among`, between `t_min` and `t_max`: the least parameter in that range
    /// at which it meets one, or `None` where it meets none there.
    pub open spec fn is_nearest(self, among: Set<usize>, t_min: int, t_max: int, r: Option<int>) -> bool {
        match r {
            Some(t) => {
                &&& t_min <= t <= t_max
                &&& exists|o: usize| among.contains(o) && #[trigger] self.meets(o, t)
                &&& forall|o: usize, u: int|
                    among.contains(o) && t_min <= u < t ==> !#[trigger] self.meets(o, u)
            },
            None => forall|o: usize, u: int|
                among.contains(o) && t_min <= u <= t_max ==> !#[trigger] self.meets(o, u),
        }
    }

    /// Whether every object answers with its nearest meeting in the range
    /// that it is asked for.
    pub open spec fn objects_exact(self) -> bool {
        forall|o: usize, t_min: int, t_max: int|
            self.is_nearest(set![o], t_min, t_max, #[trigger] self.reports(o, t_min, t_max))
    }

    /// Whether the slab test never misses: it passes every box that
    /// encloses the box of an object which the ray meets in the range.
    pub open spec fn boxes_sound(self, boxes: Seq<AABB>) -> bool {
        forall|b: AABB, o: usize, t: int, t_min: int, t_max: int|
            o < boxes.len() && b.encloses(boxes[o as int]) && t_min <= t <= t_max && #[trigger] self.meets(
                o,
                t,
            ) ==> #[trigger] self.passes(b, t_min, t_max)
    }
}

/// How far a search for the nearest hit has come: the upper end of the range
/// still searched, and the parameter of the hit found so far.
pub struct Found {
    pub closest: int,
    pub t: Option<int>,
}

impl Found {
    /// Nothing found yet, below `t_max`.
    pub open spec fn nothing(t_max: int) -> Found {
        Found { closest: t_max, t: None }
    }

    /// The search after an object has answered: a hit becomes the nearest
    /// so far and the end of the range.
    pub open spec fn after(self, answer: Option<int>) -> Found {
        match answer {
            Some(t) => Found { closest: t, t: Some(t) },
            None => self,
        }
    }

    /// Whether the search is right so far, the objects `seen` having been
    /// asked: what it holds is the nearest meeting with these between `t_min`
    /// and `t_max`, and the range ends there.
    pub open spec fn right(self, scene: Scene, seen: Set<usize>, t_min: int, t_max: int) -> bool {
        &&& scene.is_nearest(seen, t_min, t_max, self.t)
        &&& self.closest == match self.t {
            Some(t) => t,
            None => t_max,
        }
    }
}

/// There is one nearest meeting at most.
pub proof fn lemma_nearest_unique(
    scene: Scene,
    among: Set<usize>,
    t_min: int,
    t_max: int,
    a: Option<int>,
    b: Option<int>,
)
    requires
        scene.is_nearest(among, t_min, t_max, a),
        scene.is_nearest(among, t_min, t_max, b),
    ensures
        a == b,
{
    match (a, b) {
        (Some(t), Some(u)) => {
            if t < u {
                let o = choose|o: usize| among.contains(o) && #[trigger] scene.meets(o, t);
                assert(!scene.meets(o, t));
            } else if u < t {
                let o = choose|o: usize| among.contains(o) && #[trigger] scene.meets(o, u);
                assert(!scene.meets(o, u));
            }
        },
        (Some(t), None) => {
            let o = choose|o: usize| among.contains(o) && #[trigger] scene.meets(o, t);
            assert(!scene.meets(o, t));
        },
        (None, Some(u)) => {
            let o = choose|o: usize| among.contains(o) && #[trigger] scene.meets(o, u);
            assert(!scene.meets(o, u));
        },
        (None, None) => {},
    }
}

/// A search that is right stays right when one more object answers exactly.
pub proof fn lemma_right_after_object(
    scene: Scene,
    found: Found,
    seen: Set<usize>,
    o: usize,
    t_min: int,
    t_max: int,
)
    requires
        scene.objects_exact(),
        found.right(scene, seen, t_min, t_max),
    ensures
        found.after(scene.reports(o, t_min, found.closest)).right(
            scene,
            seen.insert(o),
            t_min,
            t_max,
        ),
{
    let answer = scene.reports(o, t_min, found.closest);
    assert(scene.is_nearest(set![o], t_min, found.closest, answer));
    let next = found.after(answer);
    let more = seen.insert(o);
    assert(set![o].contains(o));
    match answer {
        Some(t) => {
            let w = choose|w: usize| set![o].contains(w) && #[trigger] scene.meets(w, t);
            assert(w == o);
            assert(more.contains(o) && scene.meets(o, t));
            assert forall|p: usize, u: int| more.contains(p) && t_min <= u < t implies !#[trigger] scene.meets(
                p,
                u,
            ) by {
                if p == o {
                    assert(set![o].contains(p));
                } else {
                    assert(seen.contains(p));
                }
            }
        },
        None => {
            lemma_right_after_miss(scene, found, seen, set![o], t_min, t_max);
            assert(seen.union(set![o]) =~= more);
        },
    }
}

/// A search that is right stays right when objects are passed over that the
/// ray does not meet in the range still searched.
pub proof fn lemma_right_after_miss(
    scene: Scene,
    found: Found,
    seen: Set<usize>,
    passed: Set<usize>,
    t_min: int,
    t_max: int,
)
    requires
        found.right(scene, seen, t_min, t_max),
        scene.is_nearest(passed, t_min, found.closest, None),
    ensures
        found.right(scene, seen.union(passed), t_min, t_max),
{
    let more = seen.union(passed);
    match found.t {
        Some(t) => {
            let w = choose|w: usize| seen.contains(w) && #[trigger] scene.meets(w, t);
            assert(more.contains(w) && scene.meets(w, t));
            assert forall|p: usize, u: int| more.contains(p) && t_min <= u < t implies !#[trigger] scene.meets(
                p,
                u,
            ) by {
                if !seen.contains(p) {
                    assert(passed.contains(p));
                }
            }
        },
        None => {
            assert forall|p: usize, u: int| more.contains(p) && t_min <= u <= t_max implies !#[trigger] scene.meets(
                p,
                u,
            ) by {
                if !seen.contains(p) {
                    assert(passed.contains(p));
                }
            }
        },
    }
}

} // verus!
