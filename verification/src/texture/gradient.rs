//! Colours that run into one another between stops.

use vstd::prelude::*;
use crate::basic::vec3::RGBColor;
use crate::basic::Scalar;

verus! {

/// A gradient: colours at positions, to blend between.
///
/// Stop `i` has colour `color_set[i]` at position `pos_set[i]`. Segment `i`
/// runs from stop `i` to stop `i + 1`; `color_sub[i]` and `pos_sub[i]` are the
/// differences of colour and position across it.
pub struct Gradient {
    pub color_set: Vec<RGBColor>,
    pub pos_set: Vec<Scalar>,
    pub color_sub: Vec<RGBColor>,
    pub pos_sub: Vec<Scalar>,
    pub last_n: usize,
}

/// The segment that position `k` is blended in: the first one whose far
/// stop is not below `k`, counted from `from` on, and the last one where no
/// such stop is left.
pub open spec fn segment_from(pos_set: Seq<Scalar>, k: Scalar, from: int) -> int
    decreases pos_set.len() - from,
{
    if from + 1 < pos_set.len() - 1 && k > pos_set[from + 1] {
        segment_from(pos_set, k, from + 1)
    } else {
        from
    }
}

impl Gradient {
    /// A gradient is well formed where it has two stops at least, a colour
    /// for every stop and differences for every segment.
    pub open spec fn wf(&self) -> bool {
        &&& self.pos_set@.len() >= 2
        &&& self.color_set@.len() == self.pos_set@.len()
        &&& self.last_n == self.pos_set@.len() - 1
        &&& self.color_sub@.len() == self.last_n
        &&& self.pos_sub@.len() == self.last_n
    }

    /// Whether stops and differences make a gradient.
    pub open spec fn fits(color_set: Seq<RGBColor>, pos_set: Seq<Scalar>, color_sub: Seq<RGBColor>, pos_sub: Seq<Scalar>) -> bool {
        &&& pos_set.len() >= 2
        &&& color_set.len() == pos_set.len()
        &&& color_sub.len() == pos_set.len() - 1
        &&& pos_sub.len() == pos_set.len() - 1
    }

    /// The gradient with the given stops and the differences across its
    /// segments. It takes two stops at least, a colour for each, and a
    /// difference of each kind for each segment.
    pub fn new(color_set: Vec<RGBColor>, pos_set: Vec<Scalar>, color_sub: Vec<RGBColor>, pos_sub: Vec<Scalar>) -> (g: Self)
        requires
            Self::fits(color_set@, pos_set@, color_sub@, pos_sub@),
        ensures
            g.wf(),
            g.color_set == color_set,
            g.pos_set == pos_set,
            g.color_sub == color_sub,
            g.pos_sub == pos_sub,
    {
        let last_n = pos_set.len() - 1;
        Self { color_set, pos_set, color_sub, pos_sub, last_n }
    }

    /// The segment in which position `k` is blended.
    pub fn value(&self, k: Scalar) -> (col_id: usize)
        requires
            self.wf(),
        ensures
            col_id == segment_from(self.pos_set@, k, 0),
            col_id < self.last_n,
            col_id + 1 < self.last_n ==> k <= self.pos_set@[col_id + 1],
            forall|i: int| 1 <= i <= col_id ==> k > self.pos_set@[i],
    {
        let mut col_id: usize = 1;
        while col_id < self.last_n && k > self.pos_set[col_id]
            invariant
                self.wf(),
                1 <= col_id <= self.last_n,
                segment_from(self.pos_set@, k, 0) == segment_from(self.pos_set@, k, col_id - 1),
                forall|i: int| 1 <= i < col_id ==> k > self.pos_set@[i],
            decreases self.last_n - col_id,
        {
            col_id += 1;
        }
        col_id - 1
    }
}

} // verus!
