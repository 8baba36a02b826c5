//! Resampling (`distribute`): rebuild the interior node sequence at
//! uniform arc-length spacing, walking the old sequence from the start
//! anchor and pruning runs where the curve has doubled back on itself
//! within the collision radius of the cursor.

use vstd::prelude::*;

use crate::MAX_COORD;
use crate::config::Config;
use crate::config::config_valid;
use crate::fixed::div_trunc;
use crate::fixed::isqrt;
use crate::fixed::lemma_tdiv_scale_between;
use crate::fixed::sqrt_floor;
use crate::fixed::tdiv;
use crate::river::Node;
use crate::river::River;
use crate::river::node_wf;
use crate::river::river_wf;
use crate::vec2::Rgba;
use crate::vec2::Vec2Fx;
use crate::vec2::in_range;
use crate::vec2::spec_dist_sq;

verus! {

/// The minimum index gap behind which a nearby point counts as a true
/// self-collision rather than the naturally close next point:
/// `ceil(min_distance / point_spacing) * 2`.
pub open spec fn close_margin(cfg: Config) -> int {
    ((cfg.min_distance + cfg.point_spacing - 1) / (cfg.point_spacing as int)) * 2
}

/// The pruning radius: the configured minimum distance, slightly widened.
pub open spec fn collision_dist(cfg: Config) -> int {
    cfg.min_distance + cfg.collision_epsilon
}

/// Node `j` collides with the cursor at `at_loc`: it is far enough ahead in
/// index order and within the pruning radius in space.
pub open spec fn is_collision(r: River, cfg: Config, at_ind: int, at_loc: Vec2Fx, j: int) -> bool {
    &&& j - at_ind >= close_margin(cfg)
    &&& spec_dist_sq(r.segments@[j].loc, at_loc) < collision_dist(cfg) * collision_dist(cfg)
}

/// Scan indices `j, j-1, ..., at_ind+1` for the first (hence
/// furthest-ahead) collision with the cursor.
pub open spec fn scan_collision(
    r: River,
    cfg: Config,
    at_ind: int,
    at_loc: Vec2Fx,
    j: int,
) -> Option<int>
    decreases j - at_ind,
{
    if j <= at_ind {
        None
    } else if is_collision(r, cfg, at_ind, at_loc, j) {
        Some(j)
    } else {
        scan_collision(r, cfg, at_ind, at_loc, j - 1)
    }
}

/// The index the walk targets next from `at_ind`: the furthest-ahead
/// colliding index if any (skipping the redundant loop between), otherwise
/// simply the next index.
pub open spec fn spec_next_ind(r: River, cfg: Config, at_ind: int, at_loc: Vec2Fx) -> int {
    match scan_collision(r, cfg, at_ind, at_loc, r.segments@.len() - 1) {
        Some(j) => j,
        None => at_ind + 1,
    }
}

/// What the backward scan finds: a collision whose index is maximal among
/// `at_ind+1 ..= j`, or a guarantee that there is none in that range.
pub proof fn lemma_scan_correct(r: River, cfg: Config, at_ind: int, at_loc: Vec2Fx, j: int)
    ensures
        match scan_collision(r, cfg, at_ind, at_loc, j) {
            Some(k) => at_ind < k <= j && is_collision(r, cfg, at_ind, at_loc, k) && forall|m: int|
                k < m <= j ==> !is_collision(r, cfg, at_ind, at_loc, m),
            None => forall|m: int| at_ind < m <= j ==> !is_collision(r, cfg, at_ind, at_loc, m),
        },
    decreases j - at_ind,
{
    if j <= at_ind {
    } else if is_collision(r, cfg, at_ind, at_loc, j) {
    } else {
        lemma_scan_correct(r, cfg, at_ind, at_loc, j - 1);
    }
}

/// The next target index always lies strictly ahead of the cursor index.
pub proof fn lemma_next_ind_gt(r: River, cfg: Config, at_ind: int, at_loc: Vec2Fx)
    ensures
        spec_next_ind(r, cfg, at_ind, at_loc) > at_ind,
{
    lemma_scan_correct(r, cfg, at_ind, at_loc, r.segments@.len() - 1);
}

/// The sequence of target indices the walk visits from `at_ind` with the
/// cursor at `at_loc`; an index equal to the segment count stands for the
/// `end` anchor. (The inner guard only makes the recursion well-founded;
/// the target is always strictly ahead.)
pub open spec fn spec_route(r: River, cfg: Config, at_ind: int, at_loc: Vec2Fx) -> Seq<int>
    decreases r.segments@.len() - at_ind,
{
    if at_ind >= r.segments@.len() {
        Seq::empty()
    } else {
        let nxt0 = spec_next_ind(r, cfg, at_ind, at_loc);
        let nxt = if at_ind < nxt0 <= r.segments@.len() {
            nxt0
        } else {
            at_ind + 1
        };
        let tgt_loc = if nxt < r.segments@.len() {
            r.segments@[nxt].loc
        } else {
            r.end.loc
        };
        seq![nxt] + spec_route(r, cfg, nxt, tgt_loc)
    }
}

/// The visit order is strictly increasing in index — pruning skips loops
/// forward, never revisiting or reordering.
pub proof fn lemma_route_increasing(r: River, cfg: Config, at_ind: int, at_loc: Vec2Fx)
    ensures
        ({
            let route = spec_route(r, cfg, at_ind, at_loc);
            &&& route.len() > 0 ==> route[0] > at_ind
            &&& forall|k: int| 0 <= k < route.len() - 1 ==> #[trigger] route[k] < route[k + 1]
        }),
    decreases r.segments@.len() - at_ind,
{
    if at_ind >= r.segments@.len() {
    } else {
        lemma_scan_correct(r, cfg, at_ind, at_loc, r.segments@.len() - 1);
        let nxt = spec_next_ind(r, cfg, at_ind, at_loc);
        assert(at_ind < nxt <= r.segments@.len());
        let tgt_loc = if nxt < r.segments@.len() {
            r.segments@[nxt].loc
        } else {
            r.end.loc
        };
        lemma_route_increasing(r, cfg, nxt, tgt_loc);
        let route = spec_route(r, cfg, at_ind, at_loc);
        let rest = spec_route(r, cfg, nxt, tgt_loc);
        assert(route == seq![nxt] + rest);
        assert forall|k: int| 0 <= k < route.len() - 1 implies #[trigger] route[k] < route[k
            + 1] by {
            if k == 0 {
                if rest.len() > 0 {
                    assert(route[1] == rest[0]);
                }
            } else {
                assert(route[k] == rest[k - 1] && route[k + 1] == rest[k]);
            }
        }
    }
}

/// Termination measure of a walk along one leg.
pub open spec fn leg_measure(len: int, d: int) -> nat {
    if d > len {
        0
    } else {
        (len - d + 1) as nat
    }
}

/// The point at arc distance `d` along the straight leg from `from` toward
/// `to`, whose rounded length is `len`.
pub open spec fn spec_walk_point(from: Vec2Fx, to: Vec2Fx, len: int, d: int) -> (int, int) {
    (from.x + tdiv((to.x - from.x) * d, len), from.y + tdiv((to.y - from.y) * d, len))
}

/// A freshly resampled node: position and inherited color, with the frame
/// reset to the zero vector ("undefined" until the next frame pass).
pub open spec fn resampled_node(p: (int, int), color: Rgba) -> Node {
    Node {
        loc: Vec2Fx { x: p.0 as i64, y: p.1 as i64 },
        tangent: Vec2Fx { x: 0, y: 0 },
        bitangent: Vec2Fx { x: 0, y: 0 },
        color,
    }
}

/// The nodes emitted along one leg: one every `s` arc units, starting `d`
/// units in, as long as the leg lasts.
pub open spec fn leg_nodes(
    from: Vec2Fx,
    to: Vec2Fx,
    len: int,
    d: int,
    s: int,
    color: Rgba,
) -> Seq<Node>
    decreases leg_measure(len, d),
{
    let s1 = if s >= 1 {
        s
    } else {
        1
    };
    if d > len {
        Seq::empty()
    } else {
        seq![resampled_node(spec_walk_point(from, to, len, d), color)] + leg_nodes(
            from,
            to,
            len,
            d + s1,
            s,
            color,
        )
    }
}

/// The distance to the next emission after walking one leg whose next
/// emission stood `d` arc units in.
pub open spec fn spec_leg_rem(len: int, d: int, s: int) -> int
    decreases leg_measure(len, d),
{
    let s1 = if s >= 1 {
        s
    } else {
        1
    };
    if d > len {
        d - len
    } else {
        spec_leg_rem(len, d + s1, s)
    }
}

/// The resampled node sequence: walk the route leg by leg, emitting a node
/// every `point_spacing` arc units, carrying the spacing remainder across
/// legs; zero-length legs emit nothing.
pub open spec fn spec_resample(
    r: River,
    cfg: Config,
    route: Seq<int>,
    at_loc: Vec2Fx,
    dtnp: int,
) -> Seq<Node>
    decreases route.len(),
{
    if route.len() == 0 {
        Seq::empty()
    } else {
        let tgt = route[0];
        let tnode = if 0 <= tgt < r.segments@.len() {
            r.segments@[tgt]
        } else {
            r.end
        };
        let leg = sqrt_floor(spec_dist_sq(at_loc, tnode.loc));
        let pts = if leg >= 1 {
            leg_nodes(at_loc, tnode.loc, leg, dtnp, cfg.point_spacing as int, tnode.color)
        } else {
            Seq::empty()
        };
        let rem = if leg >= 1 {
            spec_leg_rem(leg, dtnp, cfg.point_spacing as int)
        } else {
            dtnp
        };
        pts + spec_resample(r, cfg, route.drop_first(), tnode.loc, rem)
    }
}

/// Everything `distribute` leaves in `segments`: the resampling of the
/// pruned route, walked from the start anchor with a full spacing budget.
pub open spec fn spec_distribute(r: River, cfg: Config) -> Seq<Node> {
    spec_resample(r, cfg, spec_route(r, cfg, 0, r.start.loc), r.start.loc, cfg.point_spacing as int)
}

/// One side of the spacing bound for one coordinate: the scaled quotient
/// difference stays within `2*len` of the exact scaled displacement.
proof fn lemma_walk_diff_window(delta: int, d: int, s: int, len: int)
    requires
        1 <= len,
        0 <= d,
        1 <= s,
    ensures
        ({
            let u = tdiv(delta * (d + s), len) - tdiv(delta * d, len);
            delta * s - 2 * len < u * len < delta * s + 2 * len
        }),
{
    let m1 = delta * d;
    let m2 = delta * (d + s);
    let q1 = tdiv(m1, len);
    let q2 = tdiv(m2, len);
    crate::fixed::lemma_tdiv_rem(m1, len);
    crate::fixed::lemma_tdiv_rem(m2, len);
    assert(m2 - m1 == delta * s) by (nonlinear_arith)
        requires
            m1 == delta * d,
            m2 == delta * (d + s),
    ;
    assert((q2 - q1) * len == q2 * len - q1 * len) by (nonlinear_arith);
}

/// Resampling spacing: two nodes emitted consecutively within one straight
/// leg of the walk stand `s` apart in Euclidean distance, within a
/// tolerance of five milli-units (five thousandths of a world unit).
/// A pair spanning a corner of the route is closer than `s`, and the final
/// residual piece of the walk is shorter; the bound needs `s` of at least
/// thirteen milli-units.
pub proof fn lemma_leg_spacing(from: Vec2Fx, to: Vec2Fx, len: int, d: int, s: int)
    requires
        in_range(from, MAX_COORD as int),
        in_range(to, MAX_COORD as int),
        len == sqrt_floor(spec_dist_sq(from, to)),
        1 <= len,
        13 <= s,
        0 <= d,
        d + s <= len,
    ensures
        ({
            let p1 = spec_walk_point(from, to, len, d);
            let p2 = spec_walk_point(from, to, len, d + s);
            (s - 5) * (s - 5) <= crate::vec2::norm_sq(p2.0 - p1.0, p2.1 - p1.1) <= (s + 5) * (s
                + 5)
        }),
{
    let dx = to.x - from.x;
    let dy = to.y - from.y;
    let n = spec_dist_sq(from, to);
    assert(n == dx * dx + dy * dy && n >= 0) by (nonlinear_arith)
        requires
            n == (from.x - to.x) * (from.x - to.x) + (from.y - to.y) * (from.y - to.y),
            dx == to.x - from.x,
            dy == to.y - from.y,
    ;
    crate::fixed::lemma_sqrt_exists(n as nat);
    assert(crate::fixed::is_sqrt_floor(n, len));
    let ax = if dx >= 0 { dx } else { -dx };
    let ay = if dy >= 0 { dy } else { -dy };
    assert(ax <= len) by (nonlinear_arith)
        requires
            (ax == dx || ax == -dx) && ax >= 0,
            n == dx * dx + dy * dy,
            n < (len + 1) * (len + 1),
            len >= 0,
    ;
    assert(ay <= len) by (nonlinear_arith)
        requires
            (ay == dy || ay == -dy) && ay >= 0,
            n == dx * dx + dy * dy,
            n < (len + 1) * (len + 1),
            len >= 0,
    ;
    let p1 = spec_walk_point(from, to, len, d);
    let p2 = spec_walk_point(from, to, len, d + s);
    let u = p2.0 - p1.0;
    let v = p2.1 - p1.1;
    assert(u == tdiv(dx * (d + s), len) - tdiv(dx * d, len));
    assert(v == tdiv(dy * (d + s), len) - tdiv(dy * d, len));
    lemma_walk_diff_window(dx, d, s, len);
    lemma_walk_diff_window(dy, d, s, len);
    let bu = u * len;
    let bv = v * len;
    let xx = dx * s;
    let yy = dy * s;
    let l2 = len * len;
    let ss = s * s;
    let l2s = l2 * s;
    let lss = len * ss;
    let l2ss = l2 * ss;
    let nss = n * ss;
    // upper bound: each scaled coordinate difference squared
    assert(bu * bu <= xx * xx + 4 * l2s + 4 * l2) by (nonlinear_arith)
        requires
            xx - 2 * len < bu < xx + 2 * len,
            xx == dx * s,
            -len <= dx <= len,
            l2 == len * len,
            l2s == l2 * s,
            1 <= len,
            1 <= s,
    ;
    assert(bv * bv <= yy * yy + 4 * l2s + 4 * l2) by (nonlinear_arith)
        requires
            yy - 2 * len < bv < yy + 2 * len,
            yy == dy * s,
            -len <= dy <= len,
            l2 == len * len,
            l2s == l2 * s,
            1 <= len,
            1 <= s,
    ;
    assert(xx * xx + yy * yy == nss) by (nonlinear_arith)
        requires
            n == dx * dx + dy * dy,
            xx == dx * s,
            yy == dy * s,
            nss == n * ss,
            ss == s * s,
    ;
    assert(nss <= l2ss + 2 * lss) by (nonlinear_arith)
        requires
            n < (len + 1) * (len + 1),
            nss == n * ss,
            l2ss == l2 * ss,
            lss == len * ss,
            l2 == len * len,
            ss == s * s,
            ss >= 0,
            len >= 0,
    ;
    assert(bu * bu + bv * bv <= l2 * ((s + 5) * (s + 5))) by (nonlinear_arith)
        requires
            bu * bu + bv * bv <= l2ss + 2 * lss + 8 * l2s + 8 * l2,
            l2ss == l2 * ss,
            lss == len * ss,
            l2s == l2 * s,
            l2 == len * len,
            ss == s * s,
            s <= len,
            13 <= s,
            1 <= len,
    ;
    assert(u * u + v * v <= (s + 5) * (s + 5)) by (nonlinear_arith)
        requires
            bu == u * len,
            bv == v * len,
            bu * bu + bv * bv <= l2 * ((s + 5) * (s + 5)),
            l2 == len * len,
            1 <= len,
    ;
    // lower bound
    let axs = ax * s;
    let ays = ay * s;
    assert((axs == xx || axs == -xx) && axs >= 0) by (nonlinear_arith)
        requires
            axs == ax * s,
            xx == dx * s,
            (ax == dx || ax == -dx) && ax >= 0,
            s >= 1,
    ;
    assert((ays == yy || ays == -yy) && ays >= 0) by (nonlinear_arith)
        requires
            ays == ay * s,
            yy == dy * s,
            (ay == dy || ay == -dy) && ay >= 0,
            s >= 1,
    ;
    assert(bu * bu >= xx * xx - 4 * (len * axs)) by (nonlinear_arith)
        requires
            xx - 2 * len < bu < xx + 2 * len,
            (axs == xx || axs == -xx) && axs >= 0,
            1 <= len,
    ;
    assert(bv * bv >= yy * yy - 4 * (len * ays)) by (nonlinear_arith)
        requires
            yy - 2 * len < bv < yy + 2 * len,
            (ays == yy || ays == -yy) && ays >= 0,
            1 <= len,
    ;
    assert(len * axs <= l2s && len * ays <= l2s) by (nonlinear_arith)
        requires
            axs == ax * s,
            ays == ay * s,
            0 <= ax <= len,
            0 <= ay <= len,
            l2s == l2 * s,
            l2 == len * len,
            1 <= s,
            1 <= len,
    ;
    assert(nss >= l2ss) by (nonlinear_arith)
        requires
            n >= l2,
            nss == n * ss,
            l2ss == l2 * ss,
            ss >= 0,
    ;
    assert(bu * bu + bv * bv >= l2 * ((s - 5) * (s - 5))) by (nonlinear_arith)
        requires
            bu * bu + bv * bv >= l2ss - 8 * l2s,
            l2ss == l2 * ss,
            l2s == l2 * s,
            l2 == len * len,
            ss == s * s,
            13 <= s,
            1 <= len,
    ;
    assert(u * u + v * v >= (s - 5) * (s - 5)) by (nonlinear_arith)
        requires
            bu == u * len,
            bv == v * len,
            bu * bu + bv * bv >= l2 * ((s - 5) * (s - 5)),
            l2 == len * len,
            1 <= len,
    ;
}

/// The spacing bound carried onto the emitted nodes themselves: two nodes
/// resampled at arc distances `d` and `d + s` of one straight leg stand
/// `s` apart in Euclidean distance, within five milli-units.
pub proof fn lemma_resampled_spacing(
    from: Vec2Fx,
    to: Vec2Fx,
    len: int,
    d: int,
    s: int,
    color: Rgba,
)
    requires
        in_range(from, MAX_COORD as int),
        in_range(to, MAX_COORD as int),
        len == sqrt_floor(spec_dist_sq(from, to)),
        1 <= len,
        13 <= s,
        0 <= d,
        d + s <= len,
    ensures
        ({
            let n1 = resampled_node(spec_walk_point(from, to, len, d), color);
            let n2 = resampled_node(spec_walk_point(from, to, len, d + s), color);
            (s - 5) * (s - 5) <= spec_dist_sq(n1.loc, n2.loc) <= (s + 5) * (s + 5)
        }),
{
    lemma_leg_spacing(from, to, len, d, s);
    lemma_tdiv_scale_between(to.x - from.x, d, len);
    lemma_tdiv_scale_between(to.y - from.y, d, len);
    lemma_tdiv_scale_between(to.x - from.x, d + s, len);
    lemma_tdiv_scale_between(to.y - from.y, d + s, len);
    let p1 = spec_walk_point(from, to, len, d);
    let p2 = spec_walk_point(from, to, len, d + s);
    let n1 = resampled_node(p1, color);
    let n2 = resampled_node(p2, color);
    assert(n1.loc.x == p1.0 && n1.loc.y == p1.1);
    assert(n2.loc.x == p2.0 && n2.loc.y == p2.1);
    assert(spec_dist_sq(n1.loc, n2.loc) == crate::vec2::norm_sq(p2.0 - p1.0, p2.1 - p1.1))
        by (nonlinear_arith)
        requires
            spec_dist_sq(n1.loc, n2.loc) == (n1.loc.x - n2.loc.x) * (n1.loc.x - n2.loc.x) + (
            n1.loc.y - n2.loc.y) * (n1.loc.y - n2.loc.y),
            n1.loc.x == p1.0 && n1.loc.y == p1.1,
            n2.loc.x == p2.0 && n2.loc.y == p2.1,
    ;
}

/// The `k`-th node emitted on a leg sits at arc distance `d + k*s`.
pub proof fn lemma_leg_nodes_index(
    from: Vec2Fx,
    to: Vec2Fx,
    len: int,
    d: int,
    s: int,
    color: Rgba,
    k: int,
)
    requires
        1 <= s,
        0 <= d,
        0 <= k,
        d + k * s <= len,
    ensures
        leg_nodes(from, to, len, d, s, color).len() > k,
        leg_nodes(from, to, len, d, s, color)[k] == resampled_node(
            spec_walk_point(from, to, len, d + k * s),
            color,
        ),
    decreases k,
{
    assert(k * s >= 0) by (nonlinear_arith)
        requires
            k >= 0,
            s >= 1,
    ;
    if k == 0 {
        assert(k * s == 0) by (nonlinear_arith)
            requires
                k == 0,
        ;
    } else {
        assert((k - 1) * s == k * s - s) by (nonlinear_arith);
        lemma_leg_nodes_index(from, to, len, d + s, s, color, k - 1);
        let rest = leg_nodes(from, to, len, d + s, s, color);
        assert(leg_nodes(from, to, len, d, s, color)[k] == rest[k - 1]);
    }
}

/// Resampling spacing over a whole leg: every adjacent pair of nodes
/// emitted within one straight leg stands `s` apart within five
/// milli-units.
pub proof fn lemma_leg_emissions_evenly_spaced(
    from: Vec2Fx,
    to: Vec2Fx,
    len: int,
    d: int,
    s: int,
    color: Rgba,
    k: int,
)
    requires
        in_range(from, MAX_COORD as int),
        in_range(to, MAX_COORD as int),
        len == sqrt_floor(spec_dist_sq(from, to)),
        1 <= len,
        13 <= s,
        0 <= d,
        0 <= k,
        d + (k + 1) * s <= len,
    ensures
        ({
            let emitted = leg_nodes(from, to, len, d, s, color);
            &&& emitted.len() > k + 1
            &&& (s - 5) * (s - 5) <= spec_dist_sq(emitted[k].loc, emitted[k + 1].loc) <= (s + 5)
                * (s + 5)
        }),
{
    assert((k + 1) * s == k * s + s) by (nonlinear_arith);
    lemma_leg_nodes_index(from, to, len, d, s, color, k);
    lemma_leg_nodes_index(from, to, len, d, s, color, k + 1);
    lemma_resampled_spacing(from, to, len, d + k * s, s, color);
}

/// Walk one straight leg, appending one node every `s` arc units starting
/// `dtnp` units in; returns the arc distance to the next emission after
/// the leg's far endpoint.
fn walk_leg(out: &mut Vec<Node>, from: Vec2Fx, to: Vec2Fx, leg: i64, dtnp: i64, s: i64, color: Rgba) -> (rem: i64)
    requires
        in_range(from, MAX_COORD as int),
        in_range(to, MAX_COORD as int),
        leg as int == sqrt_floor(spec_dist_sq(from, to)),
        1 <= leg <= 2_600_000_000i64,
        1 <= dtnp <= s,
        1 <= s <= 10_000_000,
    ensures
        final(out)@ == old(out)@ + leg_nodes(from, to, leg as int, dtnp as int, s as int, color),
        rem as int == spec_leg_rem(leg as int, dtnp as int, s as int),
        1 <= rem <= s,
        forall|k: int|
            old(out)@.len() <= k < final(out)@.len() ==> node_wf(#[trigger] final(out)@[k]),
{
    let dx: i64 = to.x - from.x;
    let dy: i64 = to.y - from.y;
    proof {
        crate::fixed::lemma_sqrt_exists(spec_dist_sq(from, to) as nat);
        assert(spec_dist_sq(from, to) >= 0) by (nonlinear_arith);
        assert(crate::fixed::is_sqrt_floor(spec_dist_sq(from, to), leg as int));
        if from.x == to.x && from.y == to.y {
            assert(leg * leg >= 1) by (nonlinear_arith)
                requires
                    leg >= 1,
            ;
            assert(spec_dist_sq(from, to) == 0) by (nonlinear_arith)
                requires
                    from.x == to.x && from.y == to.y,
            ;
            assert(false);
        }
        crate::vec2::lemma_len_dominates(from.x - to.x, from.y - to.y);
    }
    let mut d: i64 = dtnp;
    while d <= leg
        invariant
            in_range(from, MAX_COORD as int),
            in_range(to, MAX_COORD as int),
            dx == to.x - from.x,
            dy == to.y - from.y,
            -leg <= dx <= leg,
            -leg <= dy <= leg,
            1 <= leg <= 2_600_000_000i64,
            1 <= s <= 10_000_000,
            1 <= d,
            d <= leg + s,
            old(out)@ + leg_nodes(from, to, leg as int, dtnp as int, s as int, color) == out@
                + leg_nodes(from, to, leg as int, d as int, s as int, color),
            spec_leg_rem(leg as int, dtnp as int, s as int) == spec_leg_rem(
                leg as int,
                d as int,
                s as int,
            ),
            forall|k: int|
                old(out)@.len() <= k < out@.len() ==> node_wf(#[trigger] out@[k]),
        decreases leg + s - d,
    {
        proof {
            assert(dx * d <= 2_600_000_000i64 * 2_600_000_000i64 && dx * d >= -(2_600_000_000i64
                * 2_600_000_000i64)) by (nonlinear_arith)
                requires
                    -2_600_000_000i64 <= dx <= 2_600_000_000i64,
                    0 <= d <= 2_600_000_000i64,
            ;
            assert(dy * d <= 2_600_000_000i64 * 2_600_000_000i64 && dy * d >= -(2_600_000_000i64
                * 2_600_000_000i64)) by (nonlinear_arith)
                requires
                    -2_600_000_000i64 <= dy <= 2_600_000_000i64,
                    0 <= d <= 2_600_000_000i64,
            ;
            lemma_tdiv_scale_between(dx as int, d as int, leg as int);
            lemma_tdiv_scale_between(dy as int, d as int, leg as int);
        }
        let px: i64 = from.x + div_trunc(dx * d, leg);
        let py: i64 = from.y + div_trunc(dy * d, leg);
        let nd = Node {
            loc: Vec2Fx { x: px, y: py },
            tangent: Vec2Fx { x: 0, y: 0 },
            bitangent: Vec2Fx { x: 0, y: 0 },
            color,
        };
        proof {
            assert(node_wf(nd));
        }
        out.push(nd);
        proof {
            assert(leg_nodes(from, to, leg as int, d as int, s as int, color) == seq![
                resampled_node(spec_walk_point(from, to, leg as int, d as int), color)]
                + leg_nodes(from, to, leg as int, d + s, s as int, color));
            assert(nd == resampled_node(spec_walk_point(from, to, leg as int, d as int), color));
            assert(old(out)@ + leg_nodes(from, to, leg as int, dtnp as int, s as int, color) == out@
                + leg_nodes(from, to, leg as int, d + s, s as int, color));
        }
        d = d + s;
    }
    d - leg
}

impl River {
    /// Search the remaining nodes, from the far end backward, for the
    /// furthest-ahead index colliding with the cursor.
    pub fn find_collision(&self, at_ind: usize, at_loc: Vec2Fx, cfg: &Config) -> (r: Option<
        usize,
    >)
        requires
            river_wf(*self),
            config_valid(*cfg),
            in_range(at_loc, MAX_COORD as int),
            at_ind < self.segments@.len(),
        ensures
            match r {
                Some(j) => at_ind < j < self.segments@.len() && scan_collision(
                    *self,
                    *cfg,
                    at_ind as int,
                    at_loc,
                    self.segments@.len() - 1,
                ) == Some(j as int),
                None => scan_collision(
                    *self,
                    *cfg,
                    at_ind as int,
                    at_loc,
                    self.segments@.len() - 1,
                ) is None,
            },
    {
        let n = self.segments.len();
        let margin_i: i64 = ((cfg.min_distance + cfg.point_spacing - 1) / cfg.point_spacing) * 2;
        let cd: i64 = cfg.min_distance + cfg.collision_epsilon;
        proof {
            assert(cd * cd <= 11_000_000i64 * 11_000_000i64 && cd * cd >= 0) by (nonlinear_arith)
                requires
                    0 <= cd <= 11_000_000,
            ;
            assert(0 <= (cfg.min_distance + cfg.point_spacing - 1) / (cfg.point_spacing as int)
                <= cfg.min_distance + cfg.point_spacing - 1) by (nonlinear_arith)
                requires
                    cfg.point_spacing >= 1,
                    cfg.min_distance >= 1,
            ;
        }
        let cd2: i64 = cd * cd;
        let mut j: usize = n;
        while j > at_ind + 1
            invariant
                river_wf(*self),
                config_valid(*cfg),
                in_range(at_loc, MAX_COORD as int),
                at_ind < n,
                n == self.segments@.len(),
                at_ind + 1 <= j <= n,
                margin_i as int == close_margin(*cfg),
                cd2 as int == collision_dist(*cfg) * collision_dist(*cfg),
                scan_collision(*self, *cfg, at_ind as int, at_loc, n - 1) == scan_collision(
                    *self,
                    *cfg,
                    at_ind as int,
                    at_loc,
                    j - 1,
                ),
            decreases j,
        {
            j = j - 1;
            let gap: usize = j - at_ind;
            let hit = if (gap as u64) < (margin_i as u64) {
                false
            } else {
                let d2 = self.segments[j].loc.dist_sq(at_loc);
                d2 < cd2
            };
            if hit {
                proof {
                    assert(is_collision(*self, *cfg, at_ind as int, at_loc, j as int));
                }
                return Some(j);
            }
            proof {
                assert(!is_collision(*self, *cfg, at_ind as int, at_loc, j as int));
            }
        }
        None
    }

    /// Replace the interior nodes by a resampling of the old sequence:
    /// walk from the start anchor target by target (skipping self-collision
    /// loops), emit a node every `point_spacing` arc units with the
    /// target's color and an undefined (zero) frame, and finish at the
    /// `end` anchor. Anchors, topology and the accumulator are untouched;
    /// an empty curve yields an empty sequence.
    pub fn distribute(&mut self, cfg: &Config)
        requires
            river_wf(*old(self)),
            config_valid(*cfg),
        ensures
            river_wf(*final(self)),
            final(self).start == old(self).start,
            final(self).end == old(self).end,
            final(self).closed == old(self).closed,
            final(self).river_builder == old(self).river_builder,
            final(self).segments@ == spec_distribute(*old(self), *cfg),
    {
        let n = self.segments.len();
        let mut new_nodes: Vec<Node> = Vec::new();
        let mut at_loc: Vec2Fx = self.start.loc;
        let mut at_ind: usize = 0;
        let mut dtnp: i64 = cfg.point_spacing;
        while at_ind < n
            invariant
                *self == *old(self),
                river_wf(*self),
                config_valid(*cfg),
                n == self.segments@.len(),
                at_ind <= n,
                in_range(at_loc, MAX_COORD as int),
                1 <= dtnp <= cfg.point_spacing,
                new_nodes@ + spec_resample(
                    *self,
                    *cfg,
                    spec_route(*self, *cfg, at_ind as int, at_loc),
                    at_loc,
                    dtnp as int,
                ) == spec_distribute(*old(self), *cfg),
                forall|k: int| 0 <= k < new_nodes@.len() ==> node_wf(#[trigger] new_nodes@[k]),
            decreases n - at_ind,
        {
            let found = self.find_collision(at_ind, at_loc, cfg);
            let nxt: usize = match found {
                Some(j) => j,
                None => at_ind + 1,
            };
            proof {
                assert(nxt as int == spec_next_ind(*self, *cfg, at_ind as int, at_loc));
                lemma_next_ind_gt(*self, *cfg, at_ind as int, at_loc);
            }
            let tnode = if nxt < n {
                self.segments[nxt]
            } else {
                self.end
            };
            let ghost route = spec_route(*self, *cfg, at_ind as int, at_loc);
            let ghost rest = spec_route(*self, *cfg, nxt as int, tnode.loc);
            proof {
                assert(route == seq![nxt as int] + rest);
                assert(route.drop_first() =~= rest);
                assert(route[0] == nxt as int);
            }
            let d2 = at_loc.dist_sq(tnode.loc);
            let leg = isqrt(d2);
            let ghost pre_nodes = new_nodes@;
            let ghost pre_loc = at_loc;
            let ghost pre_dtnp = dtnp as int;
            if leg >= 1 {
                proof {
                    assert(leg <= 2_600_000_000i64) by {
                        assert(d2 <= 6_480_000_000_000_000_000i64) by (nonlinear_arith)
                            requires
                                d2 as int == spec_dist_sq(at_loc, tnode.loc),
                                in_range(at_loc, MAX_COORD as int),
                                in_range(tnode.loc, MAX_COORD as int),
                                MAX_COORD == 900_000_000,
                        ;
                        if leg > 2_600_000_000i64 {
                            assert(leg * leg > 6_480_000_000_000_000_000i64) by (nonlinear_arith)
                                requires
                                    leg > 2_600_000_000i64,
                            ;
                        }
                    }
                }
                let rem = walk_leg(
                    &mut new_nodes,
                    at_loc,
                    tnode.loc,
                    leg,
                    dtnp,
                    cfg.point_spacing,
                    tnode.color,
                );
                dtnp = rem;
            }
            proof {
                let full = spec_resample(*self, *cfg, route, pre_loc, pre_dtnp);
                let tail = spec_resample(*self, *cfg, rest, tnode.loc, dtnp as int);
                if leg >= 1 {
                    assert(full == leg_nodes(
                        pre_loc,
                        tnode.loc,
                        leg as int,
                        pre_dtnp,
                        cfg.point_spacing as int,
                        tnode.color,
                    ) + tail);
                } else {
                    assert(full == Seq::<Node>::empty() + tail);
                    assert(full =~= tail);
                }
                assert(pre_nodes + full =~= new_nodes@ + tail);
            }
            at_loc = tnode.loc;
            at_ind = nxt;
        }
        proof {
            assert(spec_route(*self, *cfg, at_ind as int, at_loc) == Seq::<int>::empty());
            assert(spec_resample(
                *self,
                *cfg,
                Seq::<int>::empty(),
                at_loc,
                dtnp as int,
            ) == Seq::<Node>::empty());
            assert(new_nodes@ + Seq::<Node>::empty() =~= new_nodes@);
        }
        self.segments = new_nodes;
    }
}

} // verus!
