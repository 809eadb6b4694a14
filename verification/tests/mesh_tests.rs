use iced_aksel::manual::basic::{draw_fill_circle, draw_fill_rect, draw_stroke_circle, draw_stroke_rect};
use iced_aksel::manual::linear::{draw_arrowhead, draw_line_segment};
use iced_aksel::manual::mesh::draw_mesh;
use iced_aksel::manual::polygon::{draw_fan, draw_fill_triangle, draw_ring, draw_stroke_triangle};
use iced_aksel::manual::radial::draw_arc_strip;
use iced_aksel::manual::ManualTessellator;
use iced_aksel::mesh::MeshBuffer;
use iced_aksel::text::flush_character_to_mesh;

fn buffer_with(n: u32) -> MeshBuffer<u32> {
    let mut b = MeshBuffer::new();
    b.add(&[], (0..n).map(|i| 1000 + i).collect());
    b
}

#[test]
fn fill_rect_is_two_triangles_after_existing_vertices() {
    let mut b = buffer_with(3);
    draw_fill_rect(&mut b, [10, 11, 12, 13]);
    assert_eq!(b.vertices[3..], [10, 11, 12, 13]);
    assert_eq!(b.indices, vec![3, 4, 5, 3, 5, 6]);
}

#[test]
fn stroke_rect_is_eight_triangles() {
    let mut b = MeshBuffer::new();
    draw_stroke_rect(&mut b, [0, 1, 2, 3], [4, 5, 6, 7]);
    assert_eq!(b.vertices, vec![0, 1, 2, 3, 4, 5, 6, 7]);
    assert_eq!(
        b.indices,
        vec![
            0, 1, 4, 1, 4, 5, 1, 2, 5, 2, 5, 6, 2, 3, 6, 3, 6, 7, 3, 0, 7, 0, 7, 4
        ]
    );
}

#[test]
fn fill_circle_fan_closes_on_first_rim_vertex() {
    let mut b = MeshBuffer::new();
    draw_fill_circle(&mut b, 99u32, vec![1, 2, 3, 4]);
    assert_eq!(b.vertices, vec![99, 1, 2, 3, 4]);
    assert_eq!(b.indices, vec![0, 1, 2, 0, 2, 3, 0, 3, 4, 0, 4, 1]);
}

#[test]
fn stroke_circle_interleaves_and_closes() {
    let mut b = buffer_with(2);
    draw_stroke_circle(&mut b, &vec![(10u32, 11u32), (20, 21), (30, 31)]);
    assert_eq!(b.vertices[2..], [10, 11, 20, 21, 30, 31]);
    let expected: Vec<u32> = vec![0, 1, 3, 0, 3, 2, 2, 3, 5, 2, 5, 4, 4, 5, 1, 4, 1, 0]
        .into_iter()
        .map(|i| i + 2)
        .collect();
    assert_eq!(b.indices, expected);
}

#[test]
fn triangles_and_frames() {
    let mut b = MeshBuffer::new();
    draw_fill_triangle(&mut b, [7u32, 8, 9]);
    draw_stroke_triangle(&mut b, [0, 1, 2], [3, 4, 5]);
    assert_eq!(b.vertices, vec![7, 8, 9, 0, 1, 2, 3, 4, 5]);
    let mut expected = vec![0, 1, 2];
    expected.extend([0, 1, 4, 0, 4, 3, 1, 2, 5, 1, 5, 4, 2, 0, 3, 2, 3, 5].iter().map(|i| i + 3));
    assert_eq!(b.indices, expected);
}

#[test]
fn fan_over_five_points() {
    let mut b = buffer_with(1);
    draw_fan(&mut b, vec![1u32, 2, 3, 4, 5]);
    assert_eq!(b.indices, vec![1, 2, 3, 1, 3, 4, 1, 4, 5]);
}

#[test]
fn fan_with_two_points_draws_nothing() {
    let mut b = buffer_with(2);
    draw_fan(&mut b, vec![1u32, 2]);
    assert_eq!(b.vertex_count(), 2);
    assert!(b.indices.is_empty());
}

#[test]
fn ring_of_three() {
    let mut b = MeshBuffer::new();
    draw_ring(&mut b, vec![0u32, 1, 2], vec![3, 4, 5]);
    assert_eq!(b.vertices, vec![0, 1, 2, 3, 4, 5]);
    assert_eq!(
        b.indices,
        vec![0, 1, 3, 1, 4, 3, 1, 2, 4, 2, 5, 4, 2, 0, 5, 0, 3, 5]
    );
}

#[test]
fn ring_with_mismatched_loops_draws_nothing() {
    let mut b = MeshBuffer::new();
    draw_ring(&mut b, vec![0u32, 1, 2, 3], vec![4, 5, 6]);
    assert!(b.vertices.is_empty());
    assert!(b.indices.is_empty());
}

#[test]
fn arc_strip_is_open() {
    let mut b = MeshBuffer::new();
    draw_arc_strip(&mut b, &vec![(0u32, 1u32), (2, 3), (4, 5)]);
    assert_eq!(b.vertices, vec![0, 1, 2, 3, 4, 5]);
    assert_eq!(b.indices, vec![0, 1, 2, 1, 3, 2, 2, 3, 4, 3, 5, 4]);
}

#[test]
fn line_segment_and_arrowhead() {
    let mut b = buffer_with(4);
    draw_line_segment(&mut b, [1u32, 2, 3, 4]);
    draw_arrowhead(&mut b, [5, 6, 7]);
    assert_eq!(b.indices, vec![4, 5, 6, 5, 7, 6, 8, 9, 10]);
}

#[test]
fn mesh_and_glyph_indices_are_offset() {
    let mut b = buffer_with(10);
    draw_mesh(&mut b, vec![1u32, 2, 3, 4], &[0, 2, 3, 3, 1, 0]);
    assert_eq!(b.indices, vec![10, 12, 13, 13, 11, 10]);
    flush_character_to_mesh(&mut b, vec![5u32, 6, 7], &[2u16, 1, 0]);
    assert_eq!(b.indices[6..], [16, 15, 14]);
    assert_eq!(b.vertex_count(), 17);
}

#[test]
fn add_offsets_relative_indices() {
    let mut b = buffer_with(5);
    b.add(&[0, 1, 2], vec![1u32, 2, 3]);
    assert_eq!(b.indices, vec![5, 6, 7]);
    b.clear();
    assert_eq!(b.vertex_count(), 0);
    assert_eq!(b.index_count(), 0);
}

#[test]
fn manual_tessellator_delegates() {
    let mut t = ManualTessellator::default();
    let mut b = MeshBuffer::new();
    t.draw_fill_rect(&mut b, [1u32, 2, 3, 4]);
    t.draw_fan(&mut b, vec![5, 6, 7]);
    t.draw_fill_circle(&mut b, 0, vec![1, 2, 3]);
    assert_eq!(b.vertex_count(), 4 + 3 + 4);
    assert_eq!(b.index_count(), 6 + 3 + 9);
    assert_eq!(b.indices[6..9], [4, 5, 6]);
    assert_eq!(b.indices[9..], [7, 8, 9, 7, 9, 10, 7, 10, 8]);
}
