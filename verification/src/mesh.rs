//! The triangles of the cube that shows the cracks on a block.

use vstd::prelude::*;

verus! {

/// Faces of a cube.
pub const FACES: u32 = 6;

/// The corner, out of the four of a face, that the `k`-th index of the two
/// triangles of the face names.
pub open spec fn corner(k: int) -> int {
    if k == 0 {
        0
    } else if k == 1 || k == 4 {
        1
    } else if k == 2 || k == 3 {
        2
    } else {
        3
    }
}

/// The `k`-th vertex index of the cube: six for each face, over the four
/// vertices of that face.
pub open spec fn vertex_index(k: int) -> int {
    corner(k % 6) + 4 * (k / 6)
}

fn corner_of(k: u32) -> (r: u32)
    requires
        k < 6,
    ensures
        r == corner(k as int),
{
    if k == 0 {
        0
    } else if k == 1 || k == 4 {
        1
    } else if k == 2 || k == 3 {
        2
    } else {
        3
    }
}

/// The vertex indices of the twelve triangles of the cube.
pub fn breaking_model_indices() -> (r: Vec<u32>)
    ensures
        r@.len() == 36,
        forall|k: int| 0 <= k < 36 ==> #[trigger] r@[k] == vertex_index(k),
{
    let mut indices: Vec<u32> = Vec::new();
    let mut face: u32 = 0;
    while face < FACES
        invariant
            face <= 6,
            indices@.len() == 6 * face,
            forall|k: int| 0 <= k < indices@.len() ==> #[trigger] indices@[k] == vertex_index(k),
        decreases 6 - face,
    {
        let mut k: u32 = 0;
        while k < 6
            invariant
                face < 6,
                k <= 6,
                indices@.len() == 6 * face + k,
                forall|j: int|
                    0 <= j < indices@.len() ==> #[trigger] indices@[j] == vertex_index(j),
            decreases 6 - k,
        {
            indices.push(corner_of(k) + 4 * face);
            k = k + 1;
        }
        face = face + 1;
    }
    indices
}

} // verus!
