//! Arc bands.

use vstd::prelude::*;

use crate::manual::basic::{interleave, interleave_pairs};
use crate::mesh::{appended, MeshBuffer};
use crate::topology::{arc_strip_indices, arc_strip_pattern};

verus! {

/// Number of segments of an arc band drawn over `pairs` rim pairs.
pub open spec fn arc_segments(pairs: int) -> int {
    if pairs == 0 { 0 } else { pairs - 1 }
}

/// Draws an open band between two concentric arcs. `rim` holds the
/// (inner, outer) pairs from the start angle to the end angle, one more than the
/// number of segments.
pub fn draw_arc_strip<V: Copy>(buffer: &mut MeshBuffer<V>, rim: &Vec<(V, V)>)
    requires
        old(buffer).has_room_for(2 * rim@.len()),
    ensures
        appended(
            old(buffer),
            final(buffer),
            interleave(rim@),
            arc_strip_pattern(arc_segments(rim@.len() as int)),
        ),
        old(buffer).well_formed() ==> final(buffer).well_formed(),
        final(buffer).triangle_count() == old(buffer).triangle_count() + 2 * arc_segments(
            rim@.len() as int,
        ),
{
    let segments = if rim.len() == 0 { 0 } else { rim.len() - 1 };
    let verts = interleave_pairs(rim);
    let pattern = arc_strip_indices(segments);
    buffer.add(pattern.as_slice(), verts);
}

} // verus!
