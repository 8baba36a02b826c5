//! End-to-end scenarios for the four per-tick passes.

use river::config::Config;
use river::field::Heightmap;
use river::river::{Node, River};
use river::vec2::{Rgba, Vec2Fx};

fn v(x: i64, y: i64) -> Vec2Fx {
    Vec2Fx { x, y }
}

fn white() -> Rgba {
    Rgba { r: 1000, g: 1000, b: 1000, a: 1000 }
}

/// A field whose bounding rectangle is empty: every sample is the dry-land
/// sentinel, so the gradient is zero everywhere.
fn flat_field() -> Heightmap {
    Heightmap::new(7, 1000, 0, 0).unwrap()
}

/// A straight open line: start (-100, 0),
/// twenty evenly spaced interior nodes from (-90, 0) to (90, 0), end
/// (100, 0), in milli-units.
fn straight_line() -> River {
    let mut r = River::default();
    r.start = Node::at(v(-100_000, 0), white());
    r.end = Node::at(v(100_000, 0), white());
    for i in 0..20i64 {
        let x = -90_000 + (i * 180_000) / 19;
        r.segments.push(Node::at(v(x, 0), white()));
    }
    r.closed = false;
    r
}

#[test]
fn straight_line_tangents_unit_x() {
    let mut r = straight_line();
    r.recompute();
    for n in &r.segments {
        assert_eq!(n.tangent, v(1000, 0));
        // collinear neighbors: zero curvature, so the bitangent is the
        // zero vector rather than an arbitrary side
        assert_eq!(n.bitangent, v(0, 0));
    }
}

#[test]
fn straight_line_step_flat_field_moves_by_drift_only() {
    let mut r = straight_line();
    r.recompute();
    let before: Vec<Vec2Fx> = r.segments.iter().map(|n| n.loc).collect();
    let cfg = Config::default();
    let h = flat_field();
    r.step(16, &h, &cfg);
    for (n, old) in r.segments.iter().zip(before.iter()) {
        // velocity = tangent*3 + bitangent*(-7) + gradient*35; on a
        // straight line bitangent is zero and the flat field's gradient is
        // zero, so only the tangential drift remains:
        // displacement = tangent * 3 * speed(3) * dt(16 ms) / 1000
        let vx = 1000 * 3;
        assert_eq!(n.loc.x, old.x + vx * 3 * 16 / 1000);
        assert_eq!(n.loc.y, old.y);
    }
}

#[test]
fn straight_line_distribute_forty_even_nodes() {
    let mut r = straight_line();
    let cfg = Config::default();
    r.distribute(&cfg);
    assert_eq!(r.segments.len(), 40);
    for (k, n) in r.segments.iter().enumerate() {
        assert_eq!(n.loc.x, -95_000 + (k as i64) * 5000);
        assert_eq!(n.loc.y, 0);
        assert_eq!(n.tangent, v(0, 0));
        assert_eq!(n.bitangent, v(0, 0));
    }
    assert_eq!(r.segments.last().unwrap().loc, r.end.loc);
}

#[test]
fn distribute_spacing_between_adjacent_nodes() {
    let mut r = straight_line();
    let cfg = Config::default();
    r.distribute(&cfg);
    let mut prev = r.segments[0].loc;
    for n in r.segments.iter().skip(1) {
        let dx = n.loc.x - prev.x;
        let dy = n.loc.y - prev.y;
        let d2 = dx * dx + dy * dy;
        assert!(d2 <= 5005 * 5005, "adjacent nodes too far apart: {}", d2);
        assert!(d2 >= 4995 * 4995, "adjacent nodes too close: {}", d2);
        prev = n.loc;
    }
}

#[test]
fn distribute_spacing_on_diagonal_line() {
    // A line not aligned with the axes, so every emission involves rounded
    // square roots and divisions; the spacing must still hold within the
    // fixed-point tolerance.
    let mut r = River::default();
    r.start = Node::at(v(0, 0), white());
    r.end = Node::at(v(100_000, 60_000), white());
    for i in 1..20i64 {
        r.segments.push(Node::at(v(i * 5000, i * 3000), white()));
    }
    let cfg = Config::default();
    r.distribute(&cfg);
    assert!(r.segments.len() > 10);
    let mut prev = r.segments[0].loc;
    for n in r.segments.iter().skip(1) {
        let dx = n.loc.x - prev.x;
        let dy = n.loc.y - prev.y;
        let d2 = dx * dx + dy * dy;
        assert!(d2 <= 5008 * 5008, "adjacent nodes too far apart: {}", d2);
        assert!(d2 >= 4992 * 4992, "adjacent nodes too close: {}", d2);
        prev = n.loc;
    }
}

#[test]
fn collision_pruning_skips_redundant_loop() {
    // A long detour whose last node returns within the collision radius of
    // the start: the walk must jump straight to that node.
    let mut r = River::default();
    r.start = Node::at(v(0, 0), white());
    r.end = Node::at(v(20_000, 0), white());
    for j in 0..19i64 {
        r.segments.push(Node::at(v((j + 1) * 20_000, 0), white()));
    }
    r.segments.push(Node::at(v(10_000, 0), white()));
    let cfg = Config::default();
    r.distribute(&cfg);
    let xs: Vec<i64> = r.segments.iter().map(|n| n.loc.x).collect();
    assert_eq!(xs, vec![5000, 10_000, 15_000, 20_000]);
    for w in xs.windows(2) {
        assert!(w[0] < w[1], "resampled sequence must advance monotonically");
    }
}

#[test]
fn closed_circle_bitangents_point_radially_one_way() {
    // 100 nodes on a circle of radius 216 world units (0.3 * 720).
    let mut r = River::default();
    let radius = 216.0f64;
    let count = 100usize;
    let mut nodes: Vec<Node> = Vec::new();
    for i in 0..count {
        let theta = (i as f64) / (count as f64) * 2.0 * std::f64::consts::PI;
        let x = (theta.sin() * radius * 1000.0).round() as i64;
        let y = (theta.cos() * radius * 1000.0).round() as i64;
        nodes.push(Node::at(v(x, y), white()));
    }
    r.start = nodes[0];
    r.end = nodes[count - 1];
    r.segments = nodes[1..count - 1].to_vec();
    r.closed = true;
    r.recompute();
    let mut sign = 0i64;
    for n in &r.segments {
        let dot = n.bitangent.x * n.loc.x + n.bitangent.y * n.loc.y;
        assert!(dot != 0, "bitangent must not be tangential on a circle");
        let s = if dot > 0 { 1 } else { -1 };
        if sign == 0 {
            sign = s;
        }
        assert_eq!(s, sign, "curvature side must be consistent around a convex loop");
    }
}

#[test]
fn empty_curve_all_passes_produce_empty_outputs() {
    let mut r = River::default();
    let cfg = Config::default();
    let h = flat_field();
    let w = flat_field();
    r.recompute();
    r.step(16, &h, &cfg);
    r.distribute(&cfg);
    r.tesselate(&w);
    assert!(r.segments.is_empty());
    assert!(r.river_builder.vertices.is_empty());
    assert!(r.river_builder.indices.is_empty());
    assert!(r.river_builder.left_bank.is_empty());
    assert!(r.river_builder.right_bank.is_empty());
}

#[test]
fn neighbor_rule_open_and_closed() {
    let mut r = River::default();
    r.start = Node::at(v(-10_000, 0), white());
    r.end = Node::at(v(10_000, 0), white());
    for i in 0..3i64 {
        r.segments.push(Node::at(v(i * 1000, 0), white()));
    }
    r.closed = false;
    assert_eq!(r.prev_node(0).loc, r.start.loc);
    assert_eq!(r.next_node(2).loc, r.end.loc);
    assert_eq!(r.prev_node(1).loc, r.segments[0].loc);
    assert_eq!(r.next_node(1).loc, r.segments[2].loc);
    r.closed = true;
    assert_eq!(r.prev_node(0).loc, r.segments[2].loc);
    assert_eq!(r.next_node(2).loc, r.segments[0].loc);
}

#[test]
fn node_indexing() {
    let mut r = River::default();
    r.segments.push(Node::at(v(1, 2), white()));
    assert_eq!(r.node(0).unwrap().loc, v(1, 2));
    assert!(r.node(-1).is_none());
    assert!(r.node(1).is_none());
}

#[test]
fn step_clamps_elapsed_time() {
    // A huge elapsed time must act like the configured cap (200 ms).
    let cfg = Config::default();
    let h = flat_field();
    let mut a = straight_line();
    a.recompute();
    let mut b = a.clone();
    a.step(1_000_000, &h, &cfg);
    b.step(200, &h, &cfg);
    for (na, nb) in a.segments.iter().zip(b.segments.iter()) {
        assert_eq!(na.loc, nb.loc);
    }
}

#[test]
fn normalize_or_zero_zero_and_exact() {
    assert_eq!(v(0, 0).normalize_or_zero(), v(0, 0));
    // a 3-4-5 triangle normalizes exactly
    assert_eq!(v(3000, 4000).normalize_or_zero(), v(600, 800));
    assert_eq!(v(-3000, 4000).normalize_or_zero(), v(-600, 800));
    let n = v(1, 1).normalize_or_zero();
    assert!(n.x.abs() <= 1000 && n.y.abs() <= 1000);
}
