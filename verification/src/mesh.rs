//! The geometry collector for the rendering pipeline.
//!
//! A [`MeshBuffer`] bundles many small pieces of triangle geometry into one large
//! indexed triangle list. Vertex payloads are opaque to this module (`V`); what is
//! tracked here is the topology: which vertices each triangle refers to.

use vstd::prelude::*;

use crate::topology::valid_pattern;

verus! {

/// An indexed triangle list: every three consecutive entries of `indices` name
/// the vertices of one triangle.
pub struct MeshBuffer<V> {
    pub vertices: Vec<V>,
    pub indices: Vec<u32>,
}

/// Every index in `indices` refers to one of the first `vertex_count` vertices.
pub open spec fn indices_in_range(indices: Seq<u32>, vertex_count: int) -> bool {
    forall|k: int| 0 <= k < indices.len() ==> (#[trigger] indices[k]) < vertex_count
}

/// A relative index pattern shifted so that relative vertex 0 becomes `start`.
pub open spec fn offset_pattern(pattern: Seq<u32>, start: int) -> Seq<u32> {
    pattern.map_values(|r: u32| (r + start) as u32)
}

/// Shifting a pattern keeps every entry and adds `start` to each.
pub proof fn lemma_offset_pattern(pattern: Seq<u32>, start: int)
    requires
        0 <= start,
        forall|k: int| 0 <= k < pattern.len() ==> start + (#[trigger] pattern[k]) <= u32::MAX,
    ensures
        offset_pattern(pattern, start).len() == pattern.len(),
        forall|k: int|
            0 <= k < pattern.len() ==> #[trigger] offset_pattern(pattern, start)[k] == pattern[k] + start,
{
    assert forall|k: int| 0 <= k < pattern.len() implies #[trigger] offset_pattern(pattern, start)[k]
        == pattern[k] + start by {
        assert(start + pattern[k] <= u32::MAX);
    }
}

/// `new` is `old` with the vertices `verts` appended and the relative index
/// pattern `pattern` appended at the position of the first new vertex.
pub open spec fn appended<V>(
    old: &MeshBuffer<V>,
    new: &MeshBuffer<V>,
    verts: Seq<V>,
    pattern: Seq<u32>,
) -> bool {
    &&& new.vertices@ == old.vertices@ + verts
    &&& new.indices@ == old.indices@ + offset_pattern(pattern, old.vertices@.len() as int)
}

/// The largest number of vertices a buffer may hold: every vertex must be
/// addressable by a 32-bit index.
pub open spec fn max_vertices() -> int {
    u32::MAX as int
}

impl<V> MeshBuffer<V> {
    /// The buffer is a well-formed triangle list: every index names an existing
    /// vertex and the indices come in whole triangles.
    pub open spec fn well_formed(&self) -> bool {
        &&& indices_in_range(self.indices@, self.vertices@.len() as int)
        &&& self.indices@.len() % 3 == 0
    }

    /// Number of triangles described by the buffer.
    pub open spec fn triangle_count(&self) -> int {
        self.indices@.len() as int / 3
    }

    /// There is room for `extra` more vertices without leaving the 32-bit index range.
    pub open spec fn has_room_for(&self, extra: nat) -> bool {
        self.vertices@.len() + extra <= max_vertices()
    }

    /// Creates an empty buffer.
    pub fn new() -> (buffer: Self)
        ensures
            buffer.vertices@ == Seq::<V>::empty(),
            buffer.indices@ == Seq::<u32>::empty(),
            buffer.well_formed(),
    {
        MeshBuffer { vertices: Vec::new(), indices: Vec::new() }
    }

    /// Number of vertices currently stored.
    pub fn vertex_count(&self) -> (n: usize)
        ensures
            n == self.vertices@.len(),
    {
        self.vertices.len()
    }

    /// Number of indices currently stored.
    pub fn index_count(&self) -> (n: usize)
        ensures
            n == self.indices@.len(),
    {
        self.indices.len()
    }

    /// Removes all geometry, keeping the allocations for reuse.
    pub fn clear(&mut self)
        ensures
            final(self).vertices@ == Seq::<V>::empty(),
            final(self).indices@ == Seq::<u32>::empty(),
            final(self).well_formed(),
    {
        self.vertices.clear();
        self.indices.clear();
    }

    /// Appends a piece of geometry: `vertices` go to the end of the vertex list and
    /// each entry of `indices`, taken relative to the first appended vertex, is
    /// shifted to the absolute position of that vertex.
    ///
    /// When the buffer was well formed and `indices` is a valid pattern over the
    /// appended vertices, the buffer stays well formed.
    pub fn add(&mut self, indices: &[u32], vertices: Vec<V>)
        requires
            old(self).has_room_for(vertices@.len()),
            forall|k: int|
                0 <= k < indices@.len() ==> old(self).vertices@.len() + (#[trigger] indices@[k])
                    <= u32::MAX,
        ensures
            final(self).vertices@ == old(self).vertices@ + vertices@,
            final(self).indices@ == old(self).indices@ + offset_pattern(
                indices@,
                old(self).vertices@.len() as int,
            ),
            old(self).well_formed() && valid_pattern(indices@, vertices@.len() as int)
                ==> final(self).well_formed(),
            final(self).indices@.len() == old(self).indices@.len() + indices@.len(),
            forall|k: int|
                0 <= k < indices@.len() ==> #[trigger] final(self).indices@[old(self).indices@.len() + k]
                    == indices@[k] + old(self).vertices@.len(),
    {
        let ghost old_vertices = self.vertices@;
        let ghost old_indices = self.indices@;
        let ghost given = vertices@;
        let start = self.vertices.len() as u32;
        let mut vertices = vertices;
        self.vertices.append(&mut vertices);
        let mut i: usize = 0;
        while i < indices.len()
            invariant
                start == old_vertices.len(),
                self.vertices@ == old_vertices + given,
                forall|k: int|
                    0 <= k < indices@.len() ==> start + (#[trigger] indices@[k]) <= u32::MAX,
                0 <= i <= indices@.len(),
                self.indices@.len() == old_indices.len() + i,
                forall|k: int| 0 <= k < old_indices.len() ==> self.indices@[k] == old_indices[k],
                forall|k: int|
                    0 <= k < i ==> self.indices@[old_indices.len() + k] == (indices@[k] + start) as u32,
            decreases indices@.len() - i,
        {
            let r = indices[i];
            self.indices.push(start + r);
            i = i + 1;
        }
        assert(self.indices@ =~= old_indices + offset_pattern(indices@, start as int));
        proof {
            if old_indices.len() % 3 == 0 && indices_in_range(old_indices, old_vertices.len() as int)
                && valid_pattern(indices@, given.len() as int) {
                assert forall|k: int| 0 <= k < self.indices@.len() implies
                    (#[trigger] self.indices@[k]) < self.vertices@.len() by {
                    if k >= old_indices.len() {
                        assert(indices@[k - old_indices.len()] < given.len());
                    }
                }
            }
        }
    }
}

} // verus!
