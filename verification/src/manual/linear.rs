//! Thick line segments and arrowheads.

use vstd::prelude::*;

use crate::mesh::{appended, MeshBuffer};
use crate::topology::{strip_quad_indices, strip_quad_pattern, triangle_indices, triangle_pattern};

verus! {

/// Draws a thick segment as two triangles in strip order; the corners are given
/// start-left, start-right, end-left, end-right.
pub fn draw_line_segment<V: Copy>(buffer: &mut MeshBuffer<V>, corners: [V; 4])
    requires
        old(buffer).has_room_for(4),
    ensures
        appended(old(buffer), final(buffer), corners@, strip_quad_pattern()),
        old(buffer).well_formed() ==> final(buffer).well_formed(),
        final(buffer).triangle_count() == old(buffer).triangle_count() + 2,
{
    let verts = vec![corners[0], corners[1], corners[2], corners[3]];
    assert(verts@ =~= corners@);
    let pattern = strip_quad_indices();
    buffer.add(pattern.as_slice(), verts);
}

/// Draws an arrowhead as one triangle: the tip, then the two base corners.
pub fn draw_arrowhead<V: Copy>(buffer: &mut MeshBuffer<V>, corners: [V; 3])
    requires
        old(buffer).has_room_for(3),
    ensures
        appended(old(buffer), final(buffer), corners@, triangle_pattern()),
        old(buffer).well_formed() ==> final(buffer).well_formed(),
        final(buffer).triangle_count() == old(buffer).triangle_count() + 1,
{
    let verts = vec![corners[0], corners[1], corners[2]];
    assert(verts@ =~= corners@);
    let pattern = triangle_indices();
    buffer.add(pattern.as_slice(), verts);
}

} // verus!
