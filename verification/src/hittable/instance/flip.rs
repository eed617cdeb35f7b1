//! An object with its faces turned inside out.

use vstd::prelude::*;
use crate::bvh::aabb::AABB;
use crate::hittable::HitRecord;

verus! {

/// A hit with its face the other way round; no hit stays none.
pub open spec fn flipped<M>(inner: Option<HitRecord<M>>) -> Option<HitRecord<M>> {
    match inner {
        Some(rec) => Some(
            HitRecord {
                p: rec.p,
                normal: rec.normal,
                mat: rec.mat,
                t: rec.t,
                front_face: !rec.front_face,
                u: rec.u,
                v: rec.v,
            },
        ),
        None => None,
    }
}

/// Flipped twice, an object is hit as it is itself.
pub proof fn lemma_flipped_twice<M>(inner: Option<HitRecord<M>>)
    ensures
        flipped(flipped(inner)) == inner,
{
}

/// An object whose front faces count as back faces, and the other way round.
pub struct Flip<TH> {
    pub item: TH,
}

impl<TH> Flip<TH> {
    pub fn new(item: TH) -> (r: Self)
        ensures
            r.item == item,
    {
        Self { item }
    }

    /// The hit on the flipped object, from the hit on the object itself:
    /// the same but for `front_face`, which is the other way round.
    pub fn hit<M>(&self, inner: Option<HitRecord<M>>) -> (r: Option<HitRecord<M>>)
        ensures
            r == flipped(inner),
    {
        match inner {
            Some(rec) => Some(
                HitRecord {
                    p: rec.p,
                    normal: rec.normal,
                    mat: rec.mat,
                    t: rec.t,
                    front_face: !rec.front_face,
                    u: rec.u,
                    v: rec.v,
                },
            ),
            None => None,
        }
    }

    /// The box of the flipped object: that of the object itself.
    pub fn bounding_box(&self, inner: Option<AABB>) -> (r: Option<AABB>)
        ensures
            r == inner,
    {
        inner
    }
}

} // verus!
