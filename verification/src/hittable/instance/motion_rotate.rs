//! An object that turns while the picture is taken.

use vstd::prelude::*;
use super::rotate::{axes_of_turn, dimension_order};
use crate::basic::{Scalar, ONE};
use crate::bvh::aabb::AABB;

verus! {

/// The ordinal of a quarter turn, in radians: half of pi.
pub const QUARTER_TURN: Scalar = 0x3FF9_21FB_5444_2D18;

/// The ordinal of a half turn, in radians: pi.
pub const HALF_TURN: Scalar = 0x4009_21FB_5444_2D18;

/// The ordinal of three quarters of a turn, in radians: one and a half times pi.
pub const THREE_QUARTER_TURN: Scalar = 0x4012_D97C_7F33_21D2;

/// An object that appears at instant `tm`, turns evenly about axis `dir`
/// by `angle` degrees within the time `dur`, and is gone after.
pub struct MotionRotate<TH> {
    pub dir: u32,
    pub angle: Scalar,
    pub obj: TH,
    pub dio: [usize; 3],
    pub tm: Scalar,
    pub dur: Scalar,
}

/// The box around all of `boxes`, the first one first.
pub open spec fn box_around(boxes: Seq<AABB>) -> AABB
    decreases boxes.len(),
{
    if boxes.len() <= 1 {
        boxes[0]
    } else {
        box_around(boxes.drop_last()).union(boxes.last())
    }
}

impl<TH> MotionRotate<TH> {
    /// A turning object is well formed where its axis is one of the three
    /// and its order of axes that of the axis.
    pub open spec fn wf(&self) -> bool {
        self.dir <= 2 && self.dio == dimension_order(self.dir)
    }

    pub fn new(obj: TH, dir: u32, angle: Scalar, tm: Scalar, dur: Scalar) -> (r: Self)
        requires
            dir <= 2,
        ensures
            r.wf(),
            r.obj == obj,
            r.dir == dir,
            r.angle == angle,
            r.tm == tm,
            r.dur == dur,
    {
        let dio = axes_of_turn(dir);
        Self { dir, angle, obj, dio, tm, dur }
    }

    /// Whether the object is there for a ray. `k` is the share of the
    /// turn that is over at the instant of the ray: the object is there from
    /// none of it to all of it.
    pub fn appears(&self, k: Scalar) -> (r: bool)
        ensures
            r == (0 <= k <= ONE),
    {
        !(k < 0 || k > ONE)
    }

    /// The number of quarter turns that the far corner of the object's
    /// box passes on its way. `true_r` is the angle at which that corner
    /// ends, in radians: the angle at which it begins and the whole turn.
    /// At each quarter passed the box of the turning object is taken once
    /// more.
    pub fn quarters_passed(&self, true_r: Scalar) -> (n: usize)
        ensures
            n == if true_r > THREE_QUARTER_TURN {
                3usize
            } else if true_r > HALF_TURN {
                2usize
            } else if true_r > QUARTER_TURN {
                1usize
            } else {
                0usize
            },
    {
        let mut n: usize = 0;
        if true_r > QUARTER_TURN {
            n = 1;
            if true_r > HALF_TURN {
                n = 2;
                if true_r > THREE_QUARTER_TURN {
                    n = 3;
                }
            }
        }
        n
    }

    /// The box of the turning object, from its boxes at the angles at
    /// which it is taken: the box around them all.
    pub fn bounding_box(&self, boxes: &Vec<AABB>) -> (r: Option<AABB>)
        requires
            boxes.len() > 0,
        ensures
            r == Some(box_around(boxes@)),
            forall|i: int| 0 <= i < boxes.len() ==> r->0.encloses(#[trigger] boxes[i]),
    {
        let mut output_box = boxes[0];
        let mut i: usize = 1;
        proof {
            assert(boxes@.take(1).len() == 1);
            assert(boxes@.take(1)[0] == boxes@[0]);
        }
        while i < boxes.len()
            invariant
                1 <= i <= boxes.len(),
                output_box == box_around(boxes@.take(i as int)),
                forall|j: int| 0 <= j < i ==> output_box.encloses(#[trigger] boxes[j]),
            decreases boxes.len() - i,
        {
            let ghost before = output_box;
            output_box = AABB::surrounding_box(&output_box, &boxes[i]);
            proof {
                let upto = boxes@.take(i as int + 1);
                assert(upto.drop_last() =~= boxes@.take(i as int));
                assert(upto.last() == boxes@[i as int]);
                before.lemma_union_encloses(boxes@[i as int]);
                assert forall|j: int| 0 <= j < i + 1 implies output_box.encloses(
                    #[trigger] boxes[j],
                ) by {
                    if j < i {
                        output_box.lemma_encloses_transitive(before, boxes[j]);
                    }
                }
            }
            i += 1;
        }
        assert(boxes@.take(i as int) =~= boxes@);
        Some(output_box)
    }
}

} // verus!
