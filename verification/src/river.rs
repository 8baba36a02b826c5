//! The river curve: ordered interior sample nodes between two fixed
//! anchors, with the per-tick relaxation passes `recompute` (local frames)
//! and `step` (gradient-driven position update).

use vstd::prelude::*;

use crate::MAX_COORD;
use crate::ONE;
use crate::config::Config;
use crate::config::config_valid;
use crate::field::Heightmap;
use crate::field::field_wf;
use crate::field::spec_get;
use crate::fixed::spec_clamp;
use crate::fixed::clamp_i64;
use crate::fixed::div_trunc;
use crate::fixed::lemma_tdiv_bounds;
use crate::fixed::tdiv;
use crate::mesh::RiverMeshBuilder;
use crate::mesh::acc_empty;
use crate::vec2::Rgba;
use crate::vec2::Vec2Fx;
use crate::vec2::in_range;
use crate::vec2::spec_norm_or_zero;

verus! {

/// One sample point of the curve. The tangent and bitangent are derived
/// caches, recomputed every tick; directly after insertion they are the
/// zero vector ("undefined") until the next `recompute` pass.
#[derive(Clone, Copy, PartialEq, Eq, Structural, Debug)]
pub struct Node {
    /// World-space location, milli-units.
    pub loc: Vec2Fx,
    /// Unit-ish direction of the curve here (`ONE`-scaled), or zero.
    pub tangent: Vec2Fx,
    /// Perpendicular of the tangent, oriented by the curvature sign.
    pub bitangent: Vec2Fx,
    /// Color carried to the tessellated geometry.
    pub color: Rgba,
}

/// Coordinates within the world bound, frame components within `ONE`.
pub open spec fn node_wf(n: Node) -> bool {
    &&& in_range(n.loc, MAX_COORD as int)
    &&& in_range(n.tangent, ONE as int)
    &&& in_range(n.bitangent, ONE as int)
}

/// The curve as a whole: fixed anchors, interior nodes, topology flag and
/// the mesh accumulator the tessellation pass fills.
#[derive(Clone, Debug)]
pub struct River {
    /// Fixed first anchor; never moved by any pass.
    pub start: Node,
    /// The interior nodes, in curve order; resampling replaces this whole
    /// sequence.
    pub segments: Vec<Node>,
    /// Fixed last anchor.
    pub end: Node,
    /// Whether the curve wraps around (last node neighbors the first).
    pub closed: bool,
    /// Output sink of the tessellation pass.
    pub river_builder: RiverMeshBuilder,
}

/// The all-zero node that `Default` yields.
pub open spec fn spec_default_node() -> Node {
    Node {
        loc: Vec2Fx { x: 0, y: 0 },
        tangent: Vec2Fx { x: 0, y: 0 },
        bitangent: Vec2Fx { x: 0, y: 0 },
        color: Rgba { r: 0, g: 0, b: 0, a: 0 },
    }
}

/// Every node of the curve is well-formed.
pub open spec fn river_wf(r: River) -> bool {
    &&& node_wf(r.start)
    &&& node_wf(r.end)
    &&& forall|i: int| 0 <= i < r.segments@.len() ==> node_wf(#[trigger] r.segments@[i])
}

/// The left neighbor of interior node `i`: the previous node, wrapping
/// around when closed, the `start` anchor when open.
pub open spec fn spec_prev(r: River, i: int) -> Node {
    if i == 0 {
        if r.closed {
            r.segments@[r.segments@.len() - 1]
        } else {
            r.start
        }
    } else {
        r.segments@[i - 1]
    }
}

/// The right neighbor of interior node `i`: the next node, wrapping around
/// when closed, the `end` anchor when open.
pub open spec fn spec_next(r: River, i: int) -> Node {
    if i == r.segments@.len() - 1 {
        if r.closed {
            r.segments@[0]
        } else {
            r.end
        }
    } else {
        r.segments@[i + 1]
    }
}

/// The tangent the relaxation pass assigns to node `i`: the normalized
/// chord between its two neighbors.
pub open spec fn spec_tangent(r: River, i: int) -> (int, int) {
    let a = spec_prev(r, i).loc;
    let c = spec_next(r, i).loc;
    spec_norm_or_zero(c.x - a.x, c.y - a.y)
}

/// The curvature sign at node `i`: the cross product of the normalized
/// incoming and outgoing directions.
pub open spec fn spec_cross(r: River, i: int) -> int {
    let a = spec_prev(r, i).loc;
    let b = r.segments@[i].loc;
    let c = spec_next(r, i).loc;
    let ab = spec_norm_or_zero(b.x - a.x, b.y - a.y);
    let bc = spec_norm_or_zero(c.x - b.x, c.y - b.y);
    ab.0 * bc.1 - ab.1 * bc.0
}

/// The sign factor applied to the perpendicular: the three-way sign of the
/// curvature, so collinear neighbors (zero curvature) give a zero
/// bitangent rather than an arbitrary side.
pub open spec fn spec_sgn(c: int) -> int {
    if c > 0 {
        1
    } else if c < 0 {
        -1
    } else {
        0
    }
}

/// The bitangent the relaxation pass assigns to node `i`: the tangent's
/// perpendicular, flipped to the side of the local curvature, re-normalized;
/// the zero vector where the curve is locally straight.
pub open spec fn spec_bitangent(r: River, i: int) -> (int, int) {
    let t = spec_tangent(r, i);
    let s = spec_sgn(spec_cross(r, i));
    spec_norm_or_zero(-t.1 * s, t.0 * s)
}

/// Neighbor rule, spelled out: on an open curve node 0's previous neighbor
/// is the `start` anchor and the last node's next neighbor is the `end`
/// anchor; on a closed curve both wrap around modularly; in the middle the
/// neighbors are simply the adjacent nodes.
pub proof fn lemma_neighbor_rule(r: River)
    requires
        r.segments@.len() >= 1,
    ensures
        !r.closed ==> spec_prev(r, 0) == r.start,
        !r.closed ==> spec_next(r, r.segments@.len() - 1) == r.end,
        r.closed ==> spec_prev(r, 0) == r.segments@[r.segments@.len() - 1],
        r.closed ==> spec_next(r, r.segments@.len() - 1) == r.segments@[0],
        forall|i: int| 1 <= i < r.segments@.len() ==> spec_prev(r, i) == r.segments@[i - 1],
        forall|i: int|
            0 <= i < r.segments@.len() - 1 ==> spec_next(r, i) == r.segments@[i + 1],
{
}

/// The frames assigned by the relaxation pass are always well defined and
/// bounded — the integer counterpart of "never NaN or infinite", for every
/// curve, including coincident and zero-length geometry.
pub proof fn lemma_frame_bounded(r: River, i: int)
    ensures
        -ONE <= spec_tangent(r, i).0 <= ONE,
        -ONE <= spec_tangent(r, i).1 <= ONE,
        -ONE <= spec_bitangent(r, i).0 <= ONE,
        -ONE <= spec_bitangent(r, i).1 <= ONE,
{
    let a = spec_prev(r, i).loc;
    let c = spec_next(r, i).loc;
    crate::vec2::lemma_norm_or_zero_bounded(c.x - a.x, c.y - a.y);
    let t = spec_tangent(r, i);
    let s = spec_sgn(spec_cross(r, i));
    crate::vec2::lemma_norm_or_zero_bounded(-t.1 * s, t.0 * s);
}

/// The simulated duration of one tick: the elapsed time, capped.
pub open spec fn spec_dt(dt_ms: u64, cfg: Config) -> int {
    if dt_ms <= cfg.max_step_ms {
        dt_ms as int
    } else {
        cfg.max_step_ms as int
    }
}

/// Where one relaxation step puts a coordinate: the weighted drift and
/// gradient velocity, integrated over the capped tick time and clamped to
/// the world bound.
pub open spec fn spec_step_coord(p: int, t: int, b: int, g: int, dt: int, cfg: Config) -> int {
    spec_clamp(
        p + tdiv((t * cfg.tangent_weight + b * cfg.bitangent_weight + g * cfg.gradient_weight)
            * cfg.speed * dt, 1000),
        -MAX_COORD as int,
        MAX_COORD as int,
    )
}

/// The discrete field gradient, x component: sampled one world unit to
/// either side (downhill is positive).
pub open spec fn spec_grad_x(h: Heightmap, p: Vec2Fx) -> int {
    spec_get(h, p.x - 1000, p.y as int) - spec_get(h, p.x + 1000, p.y as int)
}

/// The discrete field gradient, y component.
pub open spec fn spec_grad_y(h: Heightmap, p: Vec2Fx) -> int {
    spec_get(h, p.x as int, p.y - 1000) - spec_get(h, p.x as int, p.y + 1000)
}

/// What the frame pass leaves at index `i`: the old node with its tangent
/// and bitangent replaced by the neighbor-derived frame of the old curve.
pub open spec fn frame_rel(r: River, i: int, new_n: Node) -> bool {
    &&& new_n.loc == r.segments@[i].loc
    &&& new_n.color == r.segments@[i].color
    &&& (new_n.tangent.x as int, new_n.tangent.y as int) == spec_tangent(r, i)
    &&& (new_n.bitangent.x as int, new_n.bitangent.y as int) == spec_bitangent(r, i)
}

/// How one relaxation step relates a node to its successor: the frame and
/// color are kept, and each coordinate moves by the weighted velocity under
/// the field gradient sampled at the old location.
pub open spec fn step_rel(old_n: Node, new_n: Node, h: Heightmap, dt: int, cfg: Config) -> bool {
    &&& new_n.tangent == old_n.tangent
    &&& new_n.bitangent == old_n.bitangent
    &&& new_n.color == old_n.color
    &&& new_n.loc.x as int == spec_step_coord(
        old_n.loc.x as int,
        old_n.tangent.x as int,
        old_n.bitangent.x as int,
        spec_grad_x(h, old_n.loc),
        dt,
        cfg,
    )
    &&& new_n.loc.y as int == spec_step_coord(
        old_n.loc.y as int,
        old_n.tangent.y as int,
        old_n.bitangent.y as int,
        spec_grad_y(h, old_n.loc),
        dt,
        cfg,
    )
}

impl Node {
    /// A node at a location with a color and still-undefined (zero) frame.
    pub fn at(loc: Vec2Fx, color: Rgba) -> (r: Node)
        ensures
            r.loc == loc,
            r.color == color,
            r.tangent.x == 0 && r.tangent.y == 0,
            r.bitangent.x == 0 && r.bitangent.y == 0,
    {
        Node {
            loc,
            tangent: Vec2Fx { x: 0, y: 0 },
            bitangent: Vec2Fx { x: 0, y: 0 },
            color,
        }
    }

    /// One relaxation step: move along the weighted sum of tangent drift,
    /// bitangent drift and the given field gradient, scaled by the elapsed
    /// time. Never fails; the position stays inside the world bound.
    pub fn step(&mut self, dt_ms: u64, gx: i64, gy: i64, cfg: &Config)
        requires
            node_wf(*old(self)),
            config_valid(*cfg),
            -2000 <= gx <= 2000,
            -2000 <= gy <= 2000,
            dt_ms <= cfg.max_step_ms,
        ensures
            final(self).loc.x as int == spec_step_coord(
                old(self).loc.x as int,
                old(self).tangent.x as int,
                old(self).bitangent.x as int,
                gx as int,
                dt_ms as int,
                *cfg,
            ),
            final(self).loc.y as int == spec_step_coord(
                old(self).loc.y as int,
                old(self).tangent.y as int,
                old(self).bitangent.y as int,
                gy as int,
                dt_ms as int,
                *cfg,
            ),
            final(self).tangent == old(self).tangent,
            final(self).bitangent == old(self).bitangent,
            final(self).color == old(self).color,
            node_wf(*final(self)),
    {
        let nx = Self::step_coord(self.loc.x, self.tangent.x, self.bitangent.x, gx, dt_ms, cfg);
        let ny = Self::step_coord(self.loc.y, self.tangent.y, self.bitangent.y, gy, dt_ms, cfg);
        self.loc = Vec2Fx { x: nx, y: ny };
    }

    /// One coordinate of the relaxation step.
    fn step_coord(p: i64, t: i64, b: i64, g: i64, dt_ms: u64, cfg: &Config) -> (r: i64)
        requires
            -MAX_COORD <= p <= MAX_COORD,
            -ONE <= t <= ONE,
            -ONE <= b <= ONE,
            -2000 <= g <= 2000,
            config_valid(*cfg),
            dt_ms <= cfg.max_step_ms,
        ensures
            r as int == spec_step_coord(p as int, t as int, b as int, g as int, dt_ms as int, *cfg),
            -MAX_COORD <= r <= MAX_COORD,
    {
        proof {
            assert(t * cfg.tangent_weight <= 1_000_000 && t * cfg.tangent_weight >= -1_000_000)
                by (nonlinear_arith)
                requires
                    -1000 <= t <= 1000,
                    -1000 <= cfg.tangent_weight <= 1000,
            ;
            assert(b * cfg.bitangent_weight <= 1_000_000 && b * cfg.bitangent_weight >= -1_000_000)
                by (nonlinear_arith)
                requires
                    -1000 <= b <= 1000,
                    -1000 <= cfg.bitangent_weight <= 1000,
            ;
            assert(g * cfg.gradient_weight <= 2_000_000 && g * cfg.gradient_weight >= -2_000_000)
                by (nonlinear_arith)
                requires
                    -2000 <= g <= 2000,
                    -1000 <= cfg.gradient_weight <= 1000,
            ;
        }
        let v: i64 = t * cfg.tangent_weight + b * cfg.bitangent_weight + g * cfg.gradient_weight;
        proof {
            assert(v * cfg.speed <= 4_000_000_000i64 && v * cfg.speed >= -4_000_000_000i64)
                by (nonlinear_arith)
                requires
                    -4_000_000 <= v <= 4_000_000,
                    1 <= cfg.speed <= 1000,
            ;
        }
        let vs: i64 = v * cfg.speed;
        proof {
            assert(vs * (dt_ms as i64) <= 40_000_000_000_000i64 && vs * (dt_ms as i64) >= -(
            40_000_000_000_000i64)) by (nonlinear_arith)
                requires
                    -4_000_000_000i64 <= vs <= 4_000_000_000i64,
                    0 <= dt_ms as i64 <= 10_000,
            ;
        }
        let num: i64 = vs * (dt_ms as i64);
        proof {
            lemma_tdiv_bounds(num as int, 1000);
        }
        let disp: i64 = div_trunc(num, 1000);
        clamp_i64(p + disp, -MAX_COORD, MAX_COORD)
    }
}

impl River {
    /// The interior node at index `i`, when there is one.
    pub fn node(&self, i: isize) -> (r: Option<Node>)
        ensures
            0 <= i < self.segments@.len() ==> r == Some(self.segments@[i as int]),
            !(0 <= i < self.segments@.len()) ==> r is None,
    {
        if i >= 0 && (i as usize) < self.segments.len() {
            Some(self.segments[i as usize])
        } else {
            None
        }
    }

    /// The left neighbor of interior node `i`, per the open/closed rule.
    pub fn prev_node(&self, i: usize) -> (r: Node)
        requires
            i < self.segments@.len(),
        ensures
            r == spec_prev(*self, i as int),
    {
        if i == 0 {
            if self.closed {
                self.segments[self.segments.len() - 1]
            } else {
                self.start
            }
        } else {
            self.segments[i - 1]
        }
    }

    /// The right neighbor of interior node `i`, per the open/closed rule.
    pub fn next_node(&self, i: usize) -> (r: Node)
        requires
            i < self.segments@.len(),
        ensures
            r == spec_next(*self, i as int),
    {
        if i == self.segments.len() - 1 {
            if self.closed {
                self.segments[0]
            } else {
                self.end
            }
        } else {
            self.segments[i + 1]
        }
    }

    /// Recompute every interior node's tangent/bitangent frame from its two
    /// neighbors' positions. Positions, colors, anchors and topology are
    /// untouched; an empty curve is a no-op.
    pub fn recompute(&mut self)
        requires
            river_wf(*old(self)),
        ensures
            river_wf(*final(self)),
            final(self).start == old(self).start,
            final(self).end == old(self).end,
            final(self).closed == old(self).closed,
            final(self).river_builder == old(self).river_builder,
            final(self).segments@.len() == old(self).segments@.len(),
            forall|i: int|
                0 <= i < old(self).segments@.len() ==> frame_rel(
                    *old(self),
                    i,
                    #[trigger] final(self).segments@[i],
                ),
    {
        let n = self.segments.len();
        let mut updated: Vec<Node> = Vec::new();
        let mut i: usize = 0;
        while i < n
            invariant
                i <= n,
                n == self.segments@.len(),
                *self == *old(self),
                river_wf(*self),
                updated@.len() == i,
                forall|j: int| 0 <= j < i ==> frame_rel(*old(self), j, #[trigger] updated@[j]),
                forall|j: int| 0 <= j < i ==> node_wf(#[trigger] updated@[j]),
            decreases n - i,
        {
            let a = self.prev_node(i);
            let b = self.segments[i];
            let c = self.next_node(i);
            let t = c.loc.sub_v(a.loc).normalize_or_zero();
            let ab = b.loc.sub_v(a.loc).normalize_or_zero();
            let bc = c.loc.sub_v(b.loc).normalize_or_zero();
            let cross = ab.perp_dot(bc);
            let s: i64 = if cross > 0 {
                1
            } else if cross < 0 {
                -1
            } else {
                0
            };
            proof {
                assert(-1000 <= -t.y * s <= 1000 && -1000 <= t.x * s <= 1000)
                    by (nonlinear_arith)
                    requires
                        s == 1 || s == -1 || s == 0,
                        -1000 <= t.x <= 1000,
                        -1000 <= t.y <= 1000,
                ;
            }
            let bt = (Vec2Fx { x: -t.y * s, y: t.x * s }).normalize_or_zero();
            updated.push(Node { loc: b.loc, tangent: t, bitangent: bt, color: b.color });
            i = i + 1;
        }
        self.segments = updated;
    }

    /// One relaxation step for the whole curve: every interior node samples
    /// the height field at four unit offsets and moves by the weighted
    /// drift-and-gradient velocity over the capped tick time. Anchors,
    /// frames, colors, topology and the accumulator are untouched.
    pub fn step(&mut self, dt_ms: u64, heightmap: &Heightmap, cfg: &Config)
        requires
            river_wf(*old(self)),
            field_wf(*heightmap),
            config_valid(*cfg),
        ensures
            river_wf(*final(self)),
            final(self).start == old(self).start,
            final(self).end == old(self).end,
            final(self).closed == old(self).closed,
            final(self).river_builder == old(self).river_builder,
            final(self).segments@.len() == old(self).segments@.len(),
            forall|i: int|
                0 <= i < old(self).segments@.len() ==> step_rel(
                    #[trigger] old(self).segments@[i],
                    final(self).segments@[i],
                    *heightmap,
                    spec_dt(dt_ms, *cfg),
                    *cfg,
                ),
    {
        let dt_c: u64 = if dt_ms <= cfg.max_step_ms {
            dt_ms
        } else {
            cfg.max_step_ms
        };
        let n = self.segments.len();
        let mut updated: Vec<Node> = Vec::new();
        let mut i: usize = 0;
        while i < n
            invariant
                i <= n,
                n == self.segments@.len(),
                *self == *old(self),
                river_wf(*self),
                field_wf(*heightmap),
                config_valid(*cfg),
                dt_c as int == spec_dt(dt_ms, *cfg),
                dt_c <= cfg.max_step_ms,
                updated@.len() == i,
                forall|j: int|
                    0 <= j < i ==> step_rel(
                        #[trigger] old(self).segments@[j],
                        updated@[j],
                        *heightmap,
                        spec_dt(dt_ms, *cfg),
                        *cfg,
                    ),
                forall|j: int| 0 <= j < i ==> node_wf(#[trigger] updated@[j]),
            decreases n - i,
        {
            let mut nd = self.segments[i];
            let p = nd.loc;
            let up = heightmap.get(Vec2Fx { x: p.x + 1000, y: p.y });
            let down = heightmap.get(Vec2Fx { x: p.x - 1000, y: p.y });
            let left = heightmap.get(Vec2Fx { x: p.x, y: p.y - 1000 });
            let right = heightmap.get(Vec2Fx { x: p.x, y: p.y + 1000 });
            let gx: i64 = down - up;
            let gy: i64 = left - right;
            nd.step(dt_c, gx, gy, cfg);
            updated.push(nd);
            i = i + 1;
        }
        self.segments = updated;
    }
}

impl Default for Node {
    /// A node at the origin with zero frame and transparent black color.
    fn default() -> (r: Node)
        ensures
            r == spec_default_node(),
            node_wf(r),
    {
        Node {
            loc: Vec2Fx { x: 0, y: 0 },
            tangent: Vec2Fx { x: 0, y: 0 },
            bitangent: Vec2Fx { x: 0, y: 0 },
            color: Rgba { r: 0, g: 0, b: 0, a: 0 },
        }
    }
}

impl Default for River {
    /// An empty open curve with coinciding default anchors and an empty
    /// accumulator.
    fn default() -> (r: River)
        ensures
            r.segments@.len() == 0,
            !r.closed,
            r.start == spec_default_node(),
            r.end == spec_default_node(),
            acc_empty(r.river_builder),
            river_wf(r),
    {
        River {
            start: Node::default(),
            segments: Vec::new(),
            end: Node::default(),
            closed: false,
            river_builder: RiverMeshBuilder::default(),
        }
    }
}

} // verus!
