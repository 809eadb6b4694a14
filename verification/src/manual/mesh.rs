//! Arbitrary indexed geometry.

use vstd::prelude::*;

use crate::mesh::{appended, MeshBuffer};
use crate::topology::valid_pattern;

verus! {

/// Draws precomputed geometry: `vertices` and `indices` relative to the first of
/// them (for instance the output of a polygon triangulation).
pub fn draw_mesh<V>(buffer: &mut MeshBuffer<V>, vertices: Vec<V>, indices: &[u32])
    requires
        old(buffer).has_room_for(vertices@.len()),
        forall|k: int|
            0 <= k < indices@.len() ==> old(buffer).vertices@.len() + (#[trigger] indices@[k])
                <= u32::MAX,
    ensures
        appended(old(buffer), final(buffer), vertices@, indices@),
        old(buffer).well_formed() && valid_pattern(indices@, vertices@.len() as int)
            ==> final(buffer).well_formed(),
{
    buffer.add(indices, vertices);
}

} // verus!
