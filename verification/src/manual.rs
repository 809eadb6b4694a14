//! The fast-path tessellator: vertices and indices for simple primitives are
//! written directly, without path building or generic tessellation.

pub mod basic;

pub mod linear;
pub mod mesh;
pub mod polygon;
pub mod radial;

use vstd::prelude::*;

use crate::mesh::{appended, MeshBuffer};
use crate::topology::{
    annulus_pattern, disc_pattern, fan_pattern, frame_pattern, quad_pattern, ring_pattern,
    triangle_frame_pattern, triangle_pattern,
};
use self::basic::interleave;

verus! {

/// The fast-path tessellator. It holds no state; each method appends one
/// primitive to a [`MeshBuffer`].
#[derive(Default)]
pub struct ManualTessellator;

impl ManualTessellator {
    /// Draws a solid rectangle (2 triangles).
    pub fn draw_fill_rect<V: Copy>(&mut self, buffer: &mut MeshBuffer<V>, corners: [V; 4])
        requires
            old(buffer).has_room_for(4),
        ensures
            appended(old(buffer), final(buffer), corners@, quad_pattern()),
            old(buffer).well_formed() ==> final(buffer).well_formed(),
    {
        basic::draw_fill_rect(buffer, corners);
    }

    /// Draws a hollow rectangular frame (8 vertices).
    pub fn draw_stroke_rect<V: Copy>(
        &mut self,
        buffer: &mut MeshBuffer<V>,
        outer: [V; 4],
        inner: [V; 4],
    )
        requires
            old(buffer).has_room_for(8),
        ensures
            appended(old(buffer), final(buffer), outer@ + inner@, frame_pattern()),
            old(buffer).well_formed() ==> final(buffer).well_formed(),
    {
        basic::draw_stroke_rect(buffer, outer, inner);
    }

    /// Draws a solid circle as a closed triangle fan.
    pub fn draw_fill_circle<V: Copy>(&mut self, buffer: &mut MeshBuffer<V>, center: V, rim: Vec<V>)
        requires
            old(buffer).has_room_for(rim@.len() + 1),
        ensures
            appended(
                old(buffer),
                final(buffer),
                seq![center] + rim@,
                disc_pattern(rim@.len() as int),
            ),
            old(buffer).well_formed() ==> final(buffer).well_formed(),
    {
        basic::draw_fill_circle(buffer, center, rim);
    }

    /// Draws a solid ring (a stroked circle) as a closed triangle strip.
    pub fn draw_stroke_circle<V: Copy>(&mut self, buffer: &mut MeshBuffer<V>, rim: &Vec<(V, V)>)
        requires
            old(buffer).has_room_for(2 * rim@.len()),
        ensures
            appended(
                old(buffer),
                final(buffer),
                interleave(rim@),
                annulus_pattern(rim@.len() as int),
            ),
            old(buffer).well_formed() ==> final(buffer).well_formed(),
    {
        basic::draw_stroke_circle(buffer, rim);
    }

    /// Draws a solid triangle.
    pub fn draw_fill_triangle<V: Copy>(&mut self, buffer: &mut MeshBuffer<V>, corners: [V; 3])
        requires
            old(buffer).has_room_for(3),
        ensures
            appended(old(buffer), final(buffer), corners@, triangle_pattern()),
            old(buffer).well_formed() ==> final(buffer).well_formed(),
    {
        polygon::draw_fill_triangle(buffer, corners);
    }

    /// Draws a stroked triangle (frame) given outer and inner vertices.
    pub fn draw_stroke_triangle<V: Copy>(
        &mut self,
        buffer: &mut MeshBuffer<V>,
        outer: [V; 3],
        inner: [V; 3],
    )
        requires
            old(buffer).has_room_for(6),
        ensures
            appended(old(buffer), final(buffer), outer@ + inner@, triangle_frame_pattern()),
            old(buffer).well_formed() ==> final(buffer).well_formed(),
    {
        polygon::draw_stroke_triangle(buffer, outer, inner);
    }

    /// Draws a generic fan (for convex polygons).
    pub fn draw_fan<V: Copy>(&mut self, buffer: &mut MeshBuffer<V>, points: Vec<V>)
        requires
            old(buffer).has_room_for(points@.len()),
        ensures
            points@.len() < 3 ==> *final(buffer) == *old(buffer),
            points@.len() >= 3 ==> appended(
                old(buffer),
                final(buffer),
                points@,
                fan_pattern(points@.len() as int),
            ),
            old(buffer).well_formed() ==> final(buffer).well_formed(),
    {
        polygon::draw_fan(buffer, points);
    }

    /// Draws a generic ring (for polygon borders).
    pub fn draw_ring<V: Copy>(&mut self, buffer: &mut MeshBuffer<V>, outer: Vec<V>, inner: Vec<V>)
        requires
            old(buffer).has_room_for(outer@.len() + inner@.len()),
        ensures
            (outer@.len() != inner@.len() || outer@.len() < 3) ==> *final(buffer) == *old(buffer),
            (outer@.len() == inner@.len() && outer@.len() >= 3) ==> appended(
                old(buffer),
                final(buffer),
                outer@ + inner@,
                ring_pattern(outer@.len() as int),
            ),
            old(buffer).well_formed() ==> final(buffer).well_formed(),
    {
        polygon::draw_ring(buffer, outer, inner);
    }
}

} // verus!
