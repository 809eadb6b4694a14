//! Rectangles and circles.

use vstd::prelude::*;

use crate::mesh::{appended, MeshBuffer};
use crate::topology::{
    annulus_indices, annulus_pattern, disc_indices, disc_pattern, frame_indices, frame_pattern,
    quad_indices, quad_pattern,
};

verus! {

/// The vertices of a stroked circle, in the order they are stored: each
/// (inner, outer) rim pair contributes its inner vertex, then its outer vertex.
pub open spec fn interleave<V>(pairs: Seq<(V, V)>) -> Seq<V> {
    Seq::new(2 * pairs.len(), |k: int| if k % 2 == 0 { pairs[k / 2].0 } else { pairs[k / 2].1 })
}

/// Draws a solid rectangle as two triangles. The corners are given bottom-left,
/// bottom-right, top-right, top-left.
pub fn draw_fill_rect<V: Copy>(buffer: &mut MeshBuffer<V>, corners: [V; 4])
    requires
        old(buffer).has_room_for(4),
    ensures
        appended(old(buffer), final(buffer), corners@, quad_pattern()),
        old(buffer).well_formed() ==> final(buffer).well_formed(),
        final(buffer).triangle_count() == old(buffer).triangle_count() + 2,
{
    let verts = vec![corners[0], corners[1], corners[2], corners[3]];
    assert(verts@ =~= corners@);
    let pattern = quad_indices();
    buffer.add(pattern.as_slice(), verts);
}

/// Draws a hollow rectangular frame from eight vertices: the outer corners, then
/// the inner corners, each in bottom-left, bottom-right, top-right, top-left order.
pub fn draw_stroke_rect<V: Copy>(buffer: &mut MeshBuffer<V>, outer: [V; 4], inner: [V; 4])
    requires
        old(buffer).has_room_for(8),
    ensures
        appended(old(buffer), final(buffer), outer@ + inner@, frame_pattern()),
        old(buffer).well_formed() ==> final(buffer).well_formed(),
        final(buffer).triangle_count() == old(buffer).triangle_count() + 8,
{
    let verts = vec![
        outer[0], outer[1], outer[2], outer[3],
        inner[0], inner[1], inner[2], inner[3],
    ];
    assert(verts@ =~= outer@ + inner@);
    let pattern = frame_indices();
    buffer.add(pattern.as_slice(), verts);
}

/// Draws a solid circle as a closed triangle fan: the centre vertex followed by
/// the rim vertices in angular order, one triangle per rim vertex.
pub fn draw_fill_circle<V: Copy>(buffer: &mut MeshBuffer<V>, center: V, rim: Vec<V>)
    requires
        old(buffer).has_room_for(rim@.len() + 1),
    ensures
        appended(old(buffer), final(buffer), seq![center] + rim@, disc_pattern(rim@.len() as int)),
        old(buffer).well_formed() ==> final(buffer).well_formed(),
        final(buffer).triangle_count() == old(buffer).triangle_count() + rim@.len(),
{
    let segments = rim.len();
    let ghost rim_view = rim@;
    let mut verts: Vec<V> = Vec::new();
    verts.push(center);
    let mut rim = rim;
    verts.append(&mut rim);
    assert(verts@ =~= seq![center] + rim_view);
    let pattern = disc_indices(segments);
    buffer.add(pattern.as_slice(), verts);
}

/// Draws a stroked circle as a closed strip between an inner and an outer rim;
/// `rim` holds (inner, outer) pairs in angular order.
pub fn draw_stroke_circle<V: Copy>(buffer: &mut MeshBuffer<V>, rim: &Vec<(V, V)>)
    requires
        old(buffer).has_room_for(2 * rim@.len()),
    ensures
        appended(old(buffer), final(buffer), interleave(rim@), annulus_pattern(rim@.len() as int)),
        old(buffer).well_formed() ==> final(buffer).well_formed(),
        final(buffer).triangle_count() == old(buffer).triangle_count() + 2 * rim@.len(),
{
    let verts = interleave_pairs(rim);
    let pattern = annulus_indices(rim.len());
    buffer.add(pattern.as_slice(), verts);
}

/// Flattens (inner, outer) pairs into the vertex order of a strip.
pub fn interleave_pairs<V: Copy>(pairs: &Vec<(V, V)>) -> (r: Vec<V>)
    ensures
        r@ == interleave(pairs@),
{
    let mut r: Vec<V> = Vec::new();
    let mut i: usize = 0;
    while i < pairs.len()
        invariant
            0 <= i <= pairs@.len(),
            r@.len() == 2 * i,
            forall|k: int| 0 <= k < r@.len() ==> r@[k] == interleave(pairs@)[k],
        decreases pairs@.len() - i,
    {
        let ghost before = r@;
        let (a, b) = pairs[i];
        r.push(a);
        r.push(b);
        proof {
            assert forall|k: int| 0 <= k < r@.len() implies r@[k] == interleave(pairs@)[k] by {
                if k < before.len() {
                    assert(r@[k] == before[k]);
                } else {
                    assert((2 * i) / 2 == i && (2 * i + 1) / 2 == i);
                    assert((2 * i) % 2 == 0 && (2 * i + 1) % 2 == 1);
                }
            }
        }
        i = i + 1;
    }
    assert(r@ =~= interleave(pairs@));
    r
}

} // verus!
