//! The mesh accumulator on its own, and the tessellation pass against
//! hand-computed geometry.

use river::config::Config;
use river::field::Heightmap;
use river::mesh::{RiverMeshBuilder, Side};
use river::river::{Node, River};
use river::vec2::{Rgba, Vec2Fx};

fn v(x: i64, y: i64) -> Vec2Fx {
    Vec2Fx { x, y }
}

fn white() -> Rgba {
    Rgba { r: 1000, g: 1000, b: 1000, a: 1000 }
}

fn flat_field() -> Heightmap {
    Heightmap::new(7, 1000, 0, 0).unwrap()
}

#[test]
fn reset_is_idempotent() {
    let mut b = RiverMeshBuilder::default();
    let i0 = b.add_stroke_vertex(v(1, 2), white(), 0, Side::Positive);
    let i1 = b.add_stroke_vertex(v(3, 4), white(), 10, Side::Negative);
    b.add_triangle(i0, i1, i0);
    assert_eq!(b.vertices.len(), 2);
    b.abort_geometry();
    assert!(b.vertices.is_empty() && b.indices.is_empty());
    assert!(b.left_bank.is_empty() && b.right_bank.is_empty());
    b.abort_geometry();
    assert!(b.vertices.is_empty() && b.indices.is_empty());
    assert!(b.left_bank.is_empty() && b.right_bank.is_empty());
}

#[test]
fn end_geometry_sorts_banks_ascending() {
    let mut b = RiverMeshBuilder::default();
    b.add_stroke_vertex(v(3, 0), white(), 300, Side::Positive);
    b.add_stroke_vertex(v(1, 0), white(), 100, Side::Positive);
    b.add_stroke_vertex(v(2, 0), white(), 200, Side::Negative);
    b.add_stroke_vertex(v(0, 0), white(), 50, Side::Negative);
    b.end_geometry();
    let left_ts: Vec<i64> = b.left_bank.iter().map(|p| p.t).collect();
    let right_ts: Vec<i64> = b.right_bank.iter().map(|p| p.t).collect();
    assert_eq!(left_ts, vec![100, 300]);
    assert_eq!(right_ts, vec![50, 200]);
    assert_eq!(b.left_bank[0].pos, v(1, 0));
    assert_eq!(b.right_bank[0].pos, v(0, 0));
    // vertices and triangles are untouched by the sort
    assert_eq!(b.vertices.len(), 4);
    assert!(b.indices.is_empty());
}

#[test]
fn stroke_vertices_join_their_side() {
    let mut b = RiverMeshBuilder::default();
    let i0 = b.add_stroke_vertex(v(5, 6), white(), 7, Side::Positive);
    assert_eq!(i0, 0);
    assert_eq!(b.left_bank.len(), 1);
    assert_eq!(b.right_bank.len(), 0);
    let i1 = b.add_stroke_vertex(v(8, 9), white(), 11, Side::Negative);
    assert_eq!(i1, 1);
    assert_eq!(b.right_bank.len(), 1);
    b.add_triangle(i0, i1, i0);
    assert_eq!(b.indices, vec![0, 1, 0]);
}

#[test]
fn tesselate_straight_three_point_ribbon() {
    // Flat width field: every sample is the sentinel 1.0, so the width is
    // 1.0 * 10 + 15 = 25 world units and the half-width offset 12.5.
    let mut r = River::default();
    r.start = Node::at(v(0, 0), white());
    r.segments.push(Node::at(v(10_000, 0), white()));
    r.end = Node::at(v(20_000, 0), white());
    let w = flat_field();
    r.tesselate(&w);
    let b = &r.river_builder;
    assert_eq!(b.vertices.len(), 6);
    // the path runs along +x, so the left bank is offset along +y
    let expected = [
        (v(0, 12_500), v(0, -12_500)),
        (v(10_000, 12_500), v(10_000, -12_500)),
        (v(20_000, 12_500), v(20_000, -12_500)),
    ];
    for (i, (l, rr)) in expected.iter().enumerate() {
        assert_eq!(b.vertices[2 * i].pos, *l);
        assert_eq!(b.vertices[2 * i + 1].pos, *rr);
        assert_eq!(b.vertices[2 * i].color, white());
    }
    assert_eq!(b.indices, vec![0, 1, 2, 1, 2, 3, 2, 3, 4, 3, 4, 5]);
    let left_ts: Vec<i64> = b.left_bank.iter().map(|p| p.t).collect();
    assert_eq!(left_ts, vec![0, 10_000, 20_000]);
    let right_ts: Vec<i64> = b.right_bank.iter().map(|p| p.t).collect();
    assert_eq!(right_ts, vec![0, 10_000, 20_000]);
}

#[test]
fn tesselate_banks_sorted_and_indices_valid() {
    let mut r = River::default();
    r.start = Node::at(v(-50_000, 0), white());
    r.end = Node::at(v(50_000, 0), white());
    for i in 0..30i64 {
        let x = -45_000 + i * 3000;
        let y = (i % 5) * 2000;
        r.segments.push(Node::at(v(x, y), white()));
    }
    let w = Heightmap::new(3, 50_000, 360_000, 360_000).unwrap();
    r.tesselate(&w);
    let b = &r.river_builder;
    assert_eq!(b.vertices.len(), 2 * 32);
    assert_eq!(b.indices.len(), 6 * 31);
    for &ix in &b.indices {
        assert!(ix < b.vertices.len());
    }
    for bank in [&b.left_bank, &b.right_bank] {
        assert_eq!(bank.len(), 32);
        for w2 in bank.windows(2) {
            assert!(w2[0].t <= w2[1].t, "bank must be sorted by arc length");
        }
    }
}

#[test]
fn tesselate_resets_stale_geometry() {
    let mut r = River::default();
    r.start = Node::at(v(0, 0), white());
    r.segments.push(Node::at(v(10_000, 0), white()));
    r.end = Node::at(v(20_000, 0), white());
    let w = flat_field();
    r.tesselate(&w);
    let first = r.river_builder.vertices.len();
    r.tesselate(&w);
    assert_eq!(r.river_builder.vertices.len(), first, "rerun must not accumulate");
}

#[test]
fn tesselate_closed_adds_wrap_strip() {
    let mut r = River::default();
    r.start = Node::at(v(0, 0), white());
    r.segments.push(Node::at(v(10_000, 0), white()));
    r.segments.push(Node::at(v(10_000, 10_000), white()));
    r.end = Node::at(v(0, 10_000), white());
    r.closed = true;
    let w = flat_field();
    r.tesselate(&w);
    let b = &r.river_builder;
    assert_eq!(b.vertices.len(), 8);
    assert_eq!(b.indices.len(), 6 * 4);
    assert_eq!(&b.indices[18..24], &[6, 7, 0, 7, 0, 1]);
}

#[test]
fn views_expose_accumulator_and_centerline() {
    let mut r = River::default();
    r.start = Node::at(v(0, 0), white());
    r.segments.push(Node::at(v(10_000, 0), white()));
    r.end = Node::at(v(20_000, 0), white());
    let w = flat_field();
    r.tesselate(&w);
    let (verts, inds) = r.draw_fill();
    assert_eq!(verts.len(), 6);
    assert_eq!(inds.len(), 12);
    let (positions, inds2) = r.draw_for_history();
    assert_eq!(positions.len(), 6);
    assert_eq!(positions[0], r.river_builder.vertices[0].pos);
    assert_eq!(inds2.len(), 12);
    let (left, right) = r.draw_border();
    assert_eq!(left.len(), 3);
    assert_eq!(right.len(), 3);
    let line = r.centerline();
    assert_eq!(line.len(), 3);
    assert_eq!(line[0], v(0, 0));
    assert_eq!(line[1], v(10_000, 0));
    assert_eq!(line[2], v(20_000, 0));
}

#[test]
fn tessellation_rerun_on_same_input_is_identical() {
    let mut r = River::default();
    r.start = Node::at(v(0, 0), white());
    for i in 0..10i64 {
        r.segments.push(Node::at(v(i * 4000, (i % 3) * 1500), white()));
    }
    r.end = Node::at(v(44_000, 0), white());
    let w = Heightmap::new(11, 100_000, 360_000, 360_000).unwrap();
    r.tesselate(&w);
    let verts1 = r.river_builder.vertices.clone();
    let inds1 = r.river_builder.indices.clone();
    r.tesselate(&w);
    assert_eq!(r.river_builder.vertices, verts1);
    assert_eq!(r.river_builder.indices, inds1);
    let _ = Config::default();
}
