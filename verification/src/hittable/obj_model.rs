//! Meshes of triangles.

use vstd::prelude::*;
use crate::bvh::bvh_node::BvhNode;

verus! {

/// A mesh: its triangles in a bounding volume hierarchy.
pub struct OBJModel {
    pub triangles: BvhNode,
}

/// Whether every index of a mesh names a point within `n_coordinates`
/// coordinates, three to a point.
pub open spec fn indices_fit(indices: Seq<u32>, n_coordinates: int) -> bool {
    forall|i: int| 0 <= i < indices.len() ==> 3 * (#[trigger] indices[i]) + 2 < n_coordinates
}

impl OBJModel {
    /// Where the corners of the triangles of a mesh are found among its
    /// coordinates.
    ///
    /// A mesh names the corners of its triangles by indices into its points,
    /// three indices to a triangle, and holds its points as coordinates in a
    /// row, three to a point. Corner `c` of triangle `j` has index
    /// `indices[3 * j + c]`, and its first coordinate stands at three times
    /// that. Indices left over at the end make no triangle.
    pub fn corners(indices: &Vec<u32>, n_coordinates: usize) -> (r: Vec<[usize; 3]>)
        requires
            indices_fit(indices@, n_coordinates as int),
        ensures
            r.len() == indices.len() / 3,
            forall|j: int, c: int|
                0 <= j < r.len() && 0 <= c < 3 ==> (#[trigger] r[j][c]) == 3 * indices[3 * j + c]
                    && r[j][c] + 2 < n_coordinates,
    {
        let mut out: Vec<[usize; 3]> = Vec::new();
        let mut cnt: usize = 0;
        let mut pos: [usize; 3] = [0, 0, 0];
        let mut i: usize = 0;
        while i < indices.len()
            invariant
                i <= indices.len(),
                indices_fit(indices@, n_coordinates as int),
                cnt == i % 3,
                out.len() == i / 3,
                forall|c: int| 0 <= c < cnt ==> (#[trigger] pos[c]) == 3 * indices[i - cnt + c],
                forall|j: int, c: int|
                    0 <= j < out.len() && 0 <= c < 3 ==> (#[trigger] out[j][c]) == 3 * indices[3 * j
                        + c] && out[j][c] + 2 < n_coordinates,
            decreases indices.len() - i,
        {
            let p = indices[i];
            assert(3 * indices[i as int] + 2 < n_coordinates);
            let at: usize = (p as usize) * 3;
            let ghost before = pos;
            pos.set(cnt, at);
            cnt += 1;
            if cnt == 3 {
                let ghost done = out@;
                out.push(pos);
                cnt = 0;
                proof {
                    assert forall|j: int, c: int| 0 <= j < out.len() && 0 <= c < 3 implies (#[trigger] out[j][c])
                        == 3 * indices[3 * j + c] && out[j][c] + 2 < n_coordinates by {
                        if j < done.len() {
                            assert(out[j] == done[j]);
                        } else {
                            assert(out[j] == pos);
                            assert(3 * j == i - 2);
                            if c < 2 {
                                assert(pos[c] == before[c]);
                            }
                        }
                    }
                }
            }
            i += 1;
        }
        out
    }
}

} // verus!
