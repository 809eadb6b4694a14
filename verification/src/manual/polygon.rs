//! Triangles, fans and rings.

use vstd::prelude::*;

use crate::mesh::{appended, MeshBuffer};
use crate::topology::{
    fan_indices, fan_pattern, ring_indices, ring_pattern, triangle_frame_indices,
    triangle_frame_pattern, triangle_indices, triangle_pattern,
};

verus! {

/// Draws a solid triangle.
pub fn draw_fill_triangle<V: Copy>(buffer: &mut MeshBuffer<V>, corners: [V; 3])
    requires
        old(buffer).has_room_for(3),
    ensures
        appended(old(buffer), final(buffer), corners@, triangle_pattern()),
        old(buffer).well_formed() ==> final(buffer).well_formed(),
        final(buffer).triangle_count() == old(buffer).triangle_count() + 1,
{
    let verts = vec![corners[0], corners[1], corners[2]];
    assert(verts@ =~= corners@);
    let pattern = triangle_indices();
    buffer.add(pattern.as_slice(), verts);
}

/// Draws a triangular frame from the outer and the inner corners, stitched as
/// three trapezoids.
pub fn draw_stroke_triangle<V: Copy>(buffer: &mut MeshBuffer<V>, outer: [V; 3], inner: [V; 3])
    requires
        old(buffer).has_room_for(6),
    ensures
        appended(old(buffer), final(buffer), outer@ + inner@, triangle_frame_pattern()),
        old(buffer).well_formed() ==> final(buffer).well_formed(),
        final(buffer).triangle_count() == old(buffer).triangle_count() + 6,
{
    let verts = vec![outer[0], outer[1], outer[2], inner[0], inner[1], inner[2]];
    assert(verts@ =~= outer@ + inner@);
    let pattern = triangle_frame_indices();
    buffer.add(pattern.as_slice(), verts);
}

/// Draws a triangle fan over `points` (a convex polygon in order). Fewer than
/// three points draw nothing.
pub fn draw_fan<V: Copy>(buffer: &mut MeshBuffer<V>, points: Vec<V>)
    requires
        old(buffer).has_room_for(points@.len()),
    ensures
        points@.len() < 3 ==> *final(buffer) == *old(buffer),
        points@.len() >= 3 ==> appended(
            old(buffer),
            final(buffer),
            points@,
            fan_pattern(points@.len() as int),
        ),
        old(buffer).well_formed() ==> final(buffer).well_formed(),
{
    if points.len() < 3 {
        return;
    }
    let pattern = fan_indices(points.len());
    buffer.add(pattern.as_slice(), points);
}

/// Draws a closed ring between an outer and an inner loop of the same length.
/// Loops of different lengths, or of fewer than three points, draw nothing.
pub fn draw_ring<V: Copy>(buffer: &mut MeshBuffer<V>, outer: Vec<V>, inner: Vec<V>)
    requires
        old(buffer).has_room_for(outer@.len() + inner@.len()),
    ensures
        (outer@.len() != inner@.len() || outer@.len() < 3) ==> *final(buffer) == *old(buffer),
        (outer@.len() == inner@.len() && outer@.len() >= 3) ==> appended(
            old(buffer),
            final(buffer),
            outer@ + inner@,
            ring_pattern(outer@.len() as int),
        ),
        old(buffer).well_formed() ==> final(buffer).well_formed(),
{
    if outer.len() != inner.len() || outer.len() < 3 {
        return;
    }
    let n = outer.len();
    let ghost both = outer@ + inner@;
    let mut verts = outer;
    let mut inner = inner;
    verts.append(&mut inner);
    assert(verts@ =~= both);
    let pattern = ring_indices(n);
    buffer.add(pattern.as_slice(), verts);
}

} // verus!
