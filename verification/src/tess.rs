//! Tessellation (`tesselate`): turn the curve into a variable-width
//! triangulated ribbon. Every path vertex gets a width sampled from the
//! width field, a left and a right stroke vertex offset along the local
//! normal, and an arc-length parameter; consecutive vertex pairs are
//! joined by two triangles, and the banks come out sorted by arc length.

use vstd::prelude::*;

use crate::MAX_COORD;
use crate::ONE;
use crate::field::Heightmap;
use crate::field::field_wf;
use crate::field::spec_get;
use crate::fixed::div_trunc;
use crate::fixed::lemma_tdiv_bounds;
use crate::fixed::sqrt_floor;
use crate::fixed::tdiv;
use crate::mesh::BankPoint;
use crate::mesh::MeshVertex;
use crate::mesh::Side;
use crate::mesh::acc_empty;
use crate::mesh::sorted_by_t;
use crate::river::Node;
use crate::river::River;
use crate::river::river_wf;
use crate::river::node_wf;
use crate::vec2::Rgba;
use crate::vec2::Vec2Fx;
use crate::vec2::in_range;
use crate::vec2::spec_dist_sq;
use crate::vec2::spec_norm_or_zero;

verus! {

/// Width field multiplier: field value (milli) to stroke width (milli).
pub const WIDTH_SCALE: i64 = 10;

/// Base stroke width added everywhere, in milli-units.
pub const WIDTH_BASE: i64 = 15_000;

/// The tessellated path: start anchor, interior nodes, end anchor.
pub open spec fn path_nodes(r: River) -> Seq<Node> {
    seq![r.start] + r.segments@ + seq![r.end]
}

/// The stroke width at a point: the width field sample, scaled and based.
pub open spec fn spec_width(h: Heightmap, p: Vec2Fx) -> int {
    spec_get(h, p.x as int, p.y as int) * WIDTH_SCALE + WIDTH_BASE
}

/// The path vertex before `i` (itself at the ends of an open path, the
/// wraparound neighbor on a closed one).
pub open spec fn path_prev(p: Seq<Node>, closed: bool, i: int) -> Node {
    if i == 0 {
        if closed {
            p[p.len() - 1]
        } else {
            p[0]
        }
    } else {
        p[i - 1]
    }
}

/// The path vertex after `i`.
pub open spec fn path_next(p: Seq<Node>, closed: bool, i: int) -> Node {
    if i == p.len() - 1 {
        if closed {
            p[0]
        } else {
            p[p.len() - 1]
        }
    } else {
        p[i + 1]
    }
}

/// The left-pointing normal at path vertex `i`: the perpendicular of the
/// normalized chord between its neighbors (zero for degenerate geometry).
pub open spec fn spec_path_normal(p: Seq<Node>, closed: bool, i: int) -> (int, int) {
    let a = path_prev(p, closed, i).loc;
    let c = path_next(p, closed, i).loc;
    let t = spec_norm_or_zero(c.x - a.x, c.y - a.y);
    (-t.1, t.0)
}

/// Arc-length parameter of path vertex `i`: the rounded lengths of the
/// chords before it, summed.
pub open spec fn spec_arc(p: Seq<Node>, i: int) -> int
    decreases i,
{
    if i <= 0 {
        0
    } else {
        spec_arc(p, i - 1) + sqrt_floor(spec_dist_sq(p[i - 1].loc, p[i].loc))
    }
}

/// Chord lengths are non-negative, so the arc-length parameter never
/// decreases along the path.
pub proof fn lemma_arc_nondecreasing(p: Seq<Node>, i: int, j: int)
    requires
        0 <= i <= j,
    ensures
        spec_arc(p, i) <= spec_arc(p, j),
    decreases j - i,
{
    if i < j {
        lemma_arc_nondecreasing(p, i, j - 1);
        let d2 = spec_dist_sq(p[j - 1].loc, p[j].loc);
        assert(d2 >= 0) by (nonlinear_arith)
            requires
                d2 == (p[j - 1].loc.x - p[j].loc.x) * (p[j - 1].loc.x - p[j].loc.x) + (p[j
                    - 1].loc.y - p[j].loc.y) * (p[j - 1].loc.y - p[j].loc.y),
        ;
        crate::fixed::lemma_sqrt_exists(d2 as nat);
        assert(crate::fixed::is_sqrt_floor(d2, sqrt_floor(d2)));
    }
}

/// The arc-length parameter of a well-formed path stays within machine
/// range: each chord is at most three million world units.
pub proof fn lemma_arc_bounded(p: Seq<Node>, i: int)
    requires
        0 <= i < p.len(),
        forall|k: int| 0 <= k < p.len() ==> node_wf(#[trigger] p[k]),
    ensures
        0 <= spec_arc(p, i) <= 3_000_000_000 * i,
    decreases i,
{
    if i > 0 {
        lemma_arc_bounded(p, i - 1);
        let d2 = spec_dist_sq(p[i - 1].loc, p[i].loc);
        assert(0 <= d2 <= 6_480_000_000_000_000_000) by (nonlinear_arith)
            requires
                d2 == (p[i - 1].loc.x - p[i].loc.x) * (p[i - 1].loc.x - p[i].loc.x) + (p[i
                    - 1].loc.y - p[i].loc.y) * (p[i - 1].loc.y - p[i].loc.y),
                in_range(p[i - 1].loc, MAX_COORD as int),
                in_range(p[i].loc, MAX_COORD as int),
                MAX_COORD == 900_000_000,
        ;
        crate::fixed::lemma_sqrt_exists(d2 as nat);
        assert(crate::fixed::is_sqrt_floor(d2, sqrt_floor(d2)));
        let leg = sqrt_floor(d2);
        if leg > 3_000_000_000 {
            assert(leg * leg > 6_480_000_000_000_000_000) by (nonlinear_arith)
                requires
                    leg > 3_000_000_000,
            ;
        }
    }
}

/// The left stroke vertex of path vertex `i`: offset half a width along
/// the normal.
pub open spec fn spec_left_pt(p: Vec2Fx, nrm: (int, int), w: int) -> (int, int) {
    (p.x + tdiv(nrm.0 * (w / 2), ONE as int), p.y + tdiv(nrm.1 * (w / 2), ONE as int))
}

/// The right stroke vertex of path vertex `i`: offset the other way.
pub open spec fn spec_right_pt(p: Vec2Fx, nrm: (int, int), w: int) -> (int, int) {
    (p.x - tdiv(nrm.0 * (w / 2), ONE as int), p.y - tdiv(nrm.1 * (w / 2), ONE as int))
}

/// The left stroke vertex of path index `i` under width field `h`.
pub open spec fn left_vertex_at(p: Seq<Node>, closed: bool, h: Heightmap, i: int) -> MeshVertex {
    let lp = spec_left_pt(p[i].loc, spec_path_normal(p, closed, i), spec_width(h, p[i].loc));
    MeshVertex { pos: Vec2Fx { x: lp.0 as i64, y: lp.1 as i64 }, color: p[i].color }
}

/// The right stroke vertex of path index `i` under width field `h`.
pub open spec fn right_vertex_at(p: Seq<Node>, closed: bool, h: Heightmap, i: int) -> MeshVertex {
    let rp = spec_right_pt(p[i].loc, spec_path_normal(p, closed, i), spec_width(h, p[i].loc));
    MeshVertex { pos: Vec2Fx { x: rp.0 as i64, y: rp.1 as i64 }, color: p[i].color }
}

/// The left bank before sorting: one sample per path vertex, in path order.
pub open spec fn spec_left_bank(p: Seq<Node>, closed: bool, h: Heightmap) -> Seq<BankPoint> {
    Seq::new(
        p.len(),
        |i: int|
            BankPoint { t: spec_arc(p, i) as i64, pos: left_vertex_at(p, closed, h, i).pos },
    )
}

/// The right bank before sorting.
pub open spec fn spec_right_bank(p: Seq<Node>, closed: bool, h: Heightmap) -> Seq<BankPoint> {
    Seq::new(
        p.len(),
        |i: int|
            BankPoint { t: spec_arc(p, i) as i64, pos: right_vertex_at(p, closed, h, i).pos },
    )
}

/// The triangle strip between path vertices `i-1` and `i`, as six indices
/// into the vertex list (left and right vertex of `j` sit at `2j` and
/// `2j+1`).
pub open spec fn strip_ok(ind: Seq<usize>, s: int, a: int, b: int) -> bool {
    &&& ind[6 * s] == 2 * a
    &&& ind[6 * s + 1] == 2 * a + 1
    &&& ind[6 * s + 2] == 2 * b
    &&& ind[6 * s + 3] == 2 * a + 1
    &&& ind[6 * s + 4] == 2 * b
    &&& ind[6 * s + 5] == 2 * b + 1
}

/// The strip between path vertex `s` and its successor.
pub open spec fn consecutive_strip(ind: Seq<usize>, s: int) -> bool {
    strip_ok(ind, s, s, s + 1)
}

/// Both spec banks are already in ascending arc-length order.
pub proof fn lemma_spec_banks_sorted(p: Seq<Node>, closed: bool, h: Heightmap)
    requires
        p.len() <= 100_000_002,
        forall|k: int| 0 <= k < p.len() ==> node_wf(#[trigger] p[k]),
    ensures
        sorted_by_t(spec_left_bank(p, closed, h)),
        sorted_by_t(spec_right_bank(p, closed, h)),
{
    let lb = spec_left_bank(p, closed, h);
    let rb = spec_right_bank(p, closed, h);
    assert forall|i: int, j: int| 0 <= i < j < lb.len() implies #[trigger] lb[i].t
        <= #[trigger] lb[j].t by {
        lemma_arc_bounded(p, i);
        lemma_arc_bounded(p, j);
        lemma_arc_nondecreasing(p, i, j);
    }
    assert forall|i: int, j: int| 0 <= i < j < rb.len() implies #[trigger] rb[i].t
        <= #[trigger] rb[j].t by {
        lemma_arc_bounded(p, i);
        lemma_arc_bounded(p, j);
        lemma_arc_nondecreasing(p, i, j);
    }
}

/// The degenerate input on which tessellation yields nothing: no interior
/// nodes and coinciding anchors.
pub open spec fn degenerate_curve(r: River) -> bool {
    r.segments@.len() == 0 && r.start.loc == r.end.loc
}

/// Everything `tesselate` promises of the refilled accumulator for a
/// non-degenerate curve with path `p` (length `m`): two stroke vertices
/// per path vertex at the offset positions, a two-triangle strip per
/// chord (plus the closing strip when closed), and banks that hold exactly
/// the per-vertex samples, sorted by arc length.
pub open spec fn tess_post(b: crate::mesh::RiverMeshBuilder, p: Seq<Node>, closed: bool, h: Heightmap) -> bool {
    let m = p.len() as int;
    let strips = if closed {
        m
    } else {
        m - 1
    };
    &&& b.vertices@.len() == 2 * m
    &&& forall|i: int|
        0 <= i < m ==> #[trigger] b.vertices@[2 * i] == left_vertex_at(p, closed, h, i)
            && b.vertices@[2 * i + 1] == right_vertex_at(p, closed, h, i)
    &&& b.indices@.len() == 6 * strips
    &&& forall|s: int| 0 <= s < m - 1 ==> #[trigger] consecutive_strip(b.indices@, s)
    &&& (closed ==> strip_ok(b.indices@, m - 1, m - 1, 0))
    &&& forall|k: int| 0 <= k < b.indices@.len() ==> #[trigger] b.indices@[k] < 2 * m
    &&& sorted_by_t(b.left_bank@)
    &&& sorted_by_t(b.right_bank@)
    &&& b.left_bank@ == spec_left_bank(p, closed, h)
    &&& b.right_bank@ == spec_right_bank(p, closed, h)
}

impl River {
    /// Tessellate the curve into the accumulator: reset it, then emit two
    /// offset stroke vertices per path vertex (width from the width field,
    /// color from the node), the two-triangle strip per chord, and the two
    /// bank polylines sorted by arc length. Curve state is untouched; a
    /// degenerate curve (no nodes, coinciding anchors) leaves the
    /// accumulator empty.
    pub fn tesselate(&mut self, widthmap: &Heightmap)
        requires
            river_wf(*old(self)),
            field_wf(*widthmap),
            old(self).segments@.len() <= 100_000_000,
        ensures
            final(self).start == old(self).start,
            final(self).end == old(self).end,
            final(self).segments == old(self).segments,
            final(self).closed == old(self).closed,
            degenerate_curve(*old(self)) ==> acc_empty(final(self).river_builder),
            !degenerate_curve(*old(self)) ==> tess_post(
                final(self).river_builder,
                path_nodes(*old(self)),
                old(self).closed,
                *widthmap,
            ),
    {
        self.river_builder.abort_geometry();
        if self.segments.len() == 0 && self.start.loc.x == self.end.loc.x && self.start.loc.y
            == self.end.loc.y {
            return ;
        }
        let ghost p = path_nodes(*old(self));
        let n = self.segments.len();
        let m: usize = n + 2;
        let mut pts: Vec<Node> = Vec::new();
        pts.push(self.start);
        let mut i: usize = 0;
        while i < n
            invariant
                i <= n,
                self.start == old(self).start,
                self.end == old(self).end,
                self.segments == old(self).segments,
                n == self.segments@.len(),
                pts@.len() == i + 1,
                pts@[0] == self.start,
                forall|j: int| 0 <= j < i ==> #[trigger] pts@[j + 1] == self.segments@[j],
            decreases n - i,
        {
            pts.push(self.segments[i]);
            i = i + 1;
        }
        pts.push(self.end);
        proof {
            assert forall|k: int| 0 <= k < pts@.len() implies pts@[k] == p[k] by {
                if k == 0 {
                } else if k <= n {
                    assert(pts@[(k - 1) + 1] == self.segments@[k - 1]);
                }
            }
            assert(pts@ =~= p);
            assert(forall|j: int| 0 <= j < p.len() ==> node_wf(#[trigger] p[j]));
        }
        let mut t: i64 = 0;
        let mut i: usize = 0;
        while i < m
            invariant
                i <= m,
                m == pts@.len(),
                m == p.len(),
                2 <= m <= 100_000_002,
                pts@ == p,
                self.start == old(self).start,
                self.end == old(self).end,
                self.segments == old(self).segments,
                self.closed == old(self).closed,
                field_wf(*widthmap),
                forall|j: int| 0 <= j < p.len() ==> node_wf(#[trigger] p[j]),
                t as int == (if i == 0 {
                    0int
                } else {
                    spec_arc(p, i as int - 1)
                }),
                0 <= t <= 3_000_000_000i64 * (i as int),
                self.river_builder.vertices@.len() == 2 * i,
                forall|j: int|
                    0 <= j < i ==> #[trigger] self.river_builder.vertices@[2 * j]
                        == left_vertex_at(p, self.closed, *widthmap, j)
                        && self.river_builder.vertices@[2 * j + 1] == right_vertex_at(
                        p,
                        self.closed,
                        *widthmap,
                        j,
                    ),
                self.river_builder.indices@.len() == 0,
                self.river_builder.left_bank@ == spec_left_bank(p, self.closed, *widthmap).take(
                    i as int,
                ),
                self.river_builder.right_bank@ == spec_right_bank(p, self.closed, *widthmap).take(
                    i as int,
                ),
            decreases m - i,
        {
            let node = pts[i];
            if i > 0 {
                let leg = pts[i - 1].loc.dist(node.loc);
                t = t + leg;
                proof {
                    assert(spec_arc(p, i as int) == spec_arc(p, i as int - 1) + sqrt_floor(
                        spec_dist_sq(p[i as int - 1].loc, p[i as int].loc),
                    ));
                }
            }
            let prev = if i == 0 {
                if self.closed {
                    pts[m - 1]
                } else {
                    pts[0]
                }
            } else {
                pts[i - 1]
            };
            let next = if i == m - 1 {
                if self.closed {
                    pts[0]
                } else {
                    pts[m - 1]
                }
            } else {
                pts[i + 1]
            };
            let tang = next.loc.sub_v(prev.loc).normalize_or_zero();
            let nrm = Vec2Fx { x: -tang.y, y: tang.x };
            let w: i64 = widthmap.get(node.loc) * WIDTH_SCALE + WIDTH_BASE;
            let wh: i64 = w / 2;
            proof {
                assert(nrm.x * wh <= 1000 * 12_500 && nrm.x * wh >= -(1000 * 12_500))
                    by (nonlinear_arith)
                    requires
                        -1000 <= nrm.x <= 1000,
                        0 <= wh <= 12_500,
                ;
                assert(nrm.y * wh <= 1000 * 12_500 && nrm.y * wh >= -(1000 * 12_500))
                    by (nonlinear_arith)
                    requires
                        -1000 <= nrm.y <= 1000,
                        0 <= wh <= 12_500,
                ;
                lemma_tdiv_bounds(nrm.x * wh, ONE as int);
                lemma_tdiv_bounds(nrm.y * wh, ONE as int);
            }
            let lx: i64 = node.loc.x + div_trunc(nrm.x * wh, ONE);
            let ly: i64 = node.loc.y + div_trunc(nrm.y * wh, ONE);
            let rx: i64 = node.loc.x - div_trunc(nrm.x * wh, ONE);
            let ry: i64 = node.loc.y - div_trunc(nrm.y * wh, ONE);
            let ghost pre_verts = self.river_builder.vertices@;
            let _li = self.river_builder.add_stroke_vertex(
                Vec2Fx { x: lx, y: ly },
                node.color,
                t,
                Side::Positive,
            );
            let _ri = self.river_builder.add_stroke_vertex(
                Vec2Fx { x: rx, y: ry },
                node.color,
                t,
                Side::Negative,
            );
            proof {
                let lv = left_vertex_at(p, self.closed, *widthmap, i as int);
                let rv = right_vertex_at(p, self.closed, *widthmap, i as int);
                assert(self.river_builder.vertices@[2 * (i as int)] == lv);
                assert(self.river_builder.vertices@[2 * (i as int) + 1] == rv);
                assert forall|j: int| 0 <= j < i + 1 implies #[trigger] self
                    .river_builder
                    .vertices@[2 * j] == left_vertex_at(p, self.closed, *widthmap, j) && self
                    .river_builder
                    .vertices@[2 * j + 1] == right_vertex_at(p, self.closed, *widthmap, j) by {
                    if j < i {
                        assert(2 * j < 2 * (i as int) && 2 * j + 1 < 2 * (i as int));
                        assert(self.river_builder.vertices@[2 * j] == pre_verts[2 * j]);
                        assert(self.river_builder.vertices@[2 * j + 1] == pre_verts[2 * j + 1]);
                        assert(pre_verts[2 * j] == left_vertex_at(p, self.closed, *widthmap, j));
                        assert(pre_verts[2 * j + 1] == right_vertex_at(
                            p,
                            self.closed,
                            *widthmap,
                            j,
                        ));
                    }
                }
                assert(self.river_builder.left_bank@ =~= spec_left_bank(
                    p,
                    self.closed,
                    *widthmap,
                ).take(i + 1));
                assert(self.river_builder.right_bank@ =~= spec_right_bank(
                    p,
                    self.closed,
                    *widthmap,
                ).take(i + 1));
            }
            i = i + 1;
        }
        proof {
            assert(spec_left_bank(p, self.closed, *widthmap).take(m as int) =~= spec_left_bank(
                p,
                self.closed,
                *widthmap,
            ));
            assert(spec_right_bank(p, self.closed, *widthmap).take(m as int) =~= spec_right_bank(
                p,
                self.closed,
                *widthmap,
            ));
        }
        let mut s: usize = 0;
        while s < m - 1
            invariant
                s <= m - 1,
                2 <= m <= 100_000_002,
                self.river_builder.vertices@.len() == 2 * m,
                self.river_builder.indices@.len() == 6 * s,
                forall|q: int|
                    0 <= q < s ==> #[trigger] consecutive_strip(self.river_builder.indices@, q),
                forall|k: int|
                    0 <= k < self.river_builder.indices@.len() ==> #[trigger] self
                        .river_builder
                        .indices@[k] < 2 * m,
                self.river_builder.left_bank@ == spec_left_bank(p, self.closed, *widthmap),
                self.river_builder.right_bank@ == spec_right_bank(p, self.closed, *widthmap),
                forall|j: int|
                    0 <= j < m ==> #[trigger] self.river_builder.vertices@[2 * j]
                        == left_vertex_at(p, self.closed, *widthmap, j)
                        && self.river_builder.vertices@[2 * j + 1] == right_vertex_at(
                        p,
                        self.closed,
                        *widthmap,
                        j,
                    ),
                m == p.len(),
                self.closed == old(self).closed,
                self.start == old(self).start,
                self.end == old(self).end,
                self.segments == old(self).segments,
            decreases m - 1 - s,
        {
            let ghost pre_ind = self.river_builder.indices@;
            let ghost pre_verts2 = self.river_builder.vertices@;
            self.river_builder.add_triangle(2 * s, 2 * s + 1, 2 * s + 2);
            self.river_builder.add_triangle(2 * s + 1, 2 * s + 2, 2 * s + 3);
            proof {
                assert(self.river_builder.vertices@ == pre_verts2);
                assert forall|j: int| 0 <= j < m implies #[trigger] self
                    .river_builder
                    .vertices@[2 * j] == left_vertex_at(p, self.closed, *widthmap, j) && self
                    .river_builder
                    .vertices@[2 * j + 1] == right_vertex_at(p, self.closed, *widthmap, j) by {
                    assert(pre_verts2[2 * j] == left_vertex_at(p, self.closed, *widthmap, j));
                    assert(pre_verts2[2 * j + 1] == right_vertex_at(p, self.closed, *widthmap, j));
                }
                let ind = self.river_builder.indices@;
                assert(consecutive_strip(ind, s as int));
                assert forall|q: int| 0 <= q < s + 1 implies #[trigger] consecutive_strip(
                    ind,
                    q,
                ) by {
                    if q < s {
                        assert(consecutive_strip(pre_ind, q));
                        assert(ind[6 * q] == pre_ind[6 * q]);
                        assert(ind[6 * q + 1] == pre_ind[6 * q + 1]);
                        assert(ind[6 * q + 2] == pre_ind[6 * q + 2]);
                        assert(ind[6 * q + 3] == pre_ind[6 * q + 3]);
                        assert(ind[6 * q + 4] == pre_ind[6 * q + 4]);
                        assert(ind[6 * q + 5] == pre_ind[6 * q + 5]);
                    }
                }
            }
            s = s + 1;
        }
        if self.closed {
            let ghost pre_ind = self.river_builder.indices@;
            self.river_builder.add_triangle(2 * (m - 1), 2 * (m - 1) + 1, 0);
            self.river_builder.add_triangle(2 * (m - 1) + 1, 0, 1);
            proof {
                let ind = self.river_builder.indices@;
                assert forall|q: int| 0 <= q < m - 1 implies #[trigger] consecutive_strip(
                    ind,
                    q,
                ) by {
                    assert(consecutive_strip(pre_ind, q));
                    assert(ind[6 * q] == pre_ind[6 * q]);
                    assert(ind[6 * q + 1] == pre_ind[6 * q + 1]);
                    assert(ind[6 * q + 2] == pre_ind[6 * q + 2]);
                    assert(ind[6 * q + 3] == pre_ind[6 * q + 3]);
                    assert(ind[6 * q + 4] == pre_ind[6 * q + 4]);
                    assert(ind[6 * q + 5] == pre_ind[6 * q + 5]);
                }
                assert(strip_ok(ind, m as int - 1, m as int - 1, 0));
            }
        }
        proof {
            lemma_spec_banks_sorted(p, self.closed, *widthmap);
        }
        self.river_builder.end_geometry();
    }
}

} // verus!
