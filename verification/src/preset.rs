//! The two built-in curve topologies, offered as configuration presets: a
//! closed loop of evenly spaced points on a circle, and an open
//! sine-perturbed horizontal line between the two anchors.
//!
//! Angles are measured in 1/4096 of a turn; the sine is a fixed-point
//! rational approximation, exact at the quarter-turn peaks and bounded by
//! `ONE` everywhere.

use vstd::prelude::*;

use crate::MAX_COORD;
use crate::config::ConfigError;
use crate::fixed::div_trunc;
use crate::fixed::lemma_div_mono_num;
use crate::fixed::lemma_tdiv_bounds;
use crate::fixed::tdiv;
use crate::river::Node;
use crate::river::River;
use crate::river::node_wf;
use crate::river::river_wf;
use crate::vec2::Rgba;
use crate::vec2::Vec2Fx;

verus! {

/// Angle units in a full turn.
pub const TURN: i64 = 4096;

/// Angle units in half a turn.
pub const HALF_TURN: i64 = 2048;

/// Milli-scaled sine of `a` half-turn units, for `a` in `[0, HALF_TURN]`:
/// the rational approximation `16a(H-a) / (5H^2 - 4a(H-a))`, scaled.
pub open spec fn spec_sin_half(a: int) -> int {
    let q = a * (HALF_TURN - a);
    (16 * q * 1000) / (5 * HALF_TURN * HALF_TURN - 4 * q)
}

/// Milli-scaled sine of an angle in `[0, TURN)` units.
pub open spec fn spec_sin(a: int) -> int {
    if a < HALF_TURN {
        spec_sin_half(a)
    } else {
        -spec_sin_half(a - HALF_TURN)
    }
}

/// Milli-scaled cosine: the sine a quarter turn ahead.
pub open spec fn spec_cos(a: int) -> int {
    spec_sin((a + 1024) % (TURN as int))
}

/// The sine numerator argument stays within its quarter-square bound.
proof fn lemma_sin_q_bounds(a: int)
    requires
        0 <= a <= HALF_TURN,
    ensures
        0 <= a * (HALF_TURN - a) <= 1_048_576,
{
    assert(0 <= a * (2048 - a) && a * (2048 - a) == 1_048_576 - (a - 1024) * (a - 1024) && (a
        - 1024) * (a - 1024) >= 0) by (nonlinear_arith)
        requires
            0 <= a <= 2048,
    ;
}

/// The half-turn sine is bounded by `ONE`.
proof fn lemma_sin_half_bounds(a: int)
    requires
        0 <= a <= HALF_TURN,
    ensures
        0 <= spec_sin_half(a) <= 1000,
{
    lemma_sin_q_bounds(a);
    let q = a * (HALF_TURN - a);
    let denom = 5 * HALF_TURN * HALF_TURN - 4 * q;
    assert(denom >= 16_777_216);
    assert(16 * q * 1000 <= 1000 * denom) by (nonlinear_arith)
        requires
            0 <= q <= 1_048_576,
            denom == 20_971_520 - 4 * q,
    ;
    lemma_div_mono_num(16 * q * 1000, 1000 * denom, denom);
    assert((1000 * denom) / denom == 1000) by (nonlinear_arith)
        requires
            denom >= 1,
    ;
    assert((16 * q * 1000) / denom >= 0) by (nonlinear_arith)
        requires
            16 * q * 1000 >= 0,
            denom >= 1,
    ;
}

/// The sine of any angle is bounded by `ONE`.
pub proof fn lemma_sin_bounds(a: int)
    requires
        0 <= a < TURN,
    ensures
        -1000 <= spec_sin(a) <= 1000,
{
    if a < HALF_TURN {
        lemma_sin_half_bounds(a);
    } else {
        lemma_sin_half_bounds(a - HALF_TURN);
    }
}

/// Milli-scaled sine of an angle in `[0, TURN)` units.
pub fn sin_fx(a: i64) -> (r: i64)
    requires
        0 <= a < TURN,
    ensures
        r as int == spec_sin(a as int),
        -1000 <= r <= 1000,
{
    if a < HALF_TURN {
        sin_half(a)
    } else {
        -sin_half(a - HALF_TURN)
    }
}

/// Milli-scaled cosine of an angle in `[0, TURN)` units.
pub fn cos_fx(a: i64) -> (r: i64)
    requires
        0 <= a < TURN,
    ensures
        r as int == spec_cos(a as int),
        -1000 <= r <= 1000,
{
    sin_fx((a + 1024) % TURN)
}

/// The half-turn branch of the sine.
fn sin_half(a: i64) -> (r: i64)
    requires
        0 <= a <= HALF_TURN,
    ensures
        r as int == spec_sin_half(a as int),
        0 <= r <= 1000,
{
    proof {
        lemma_sin_q_bounds(a as int);
    }
    let q: i64 = a * (HALF_TURN - a);
    proof {
        lemma_sin_half_bounds(a as int);
    }
    (16 * q * 1000) / (5 * HALF_TURN * HALF_TURN - 4 * q)
}

/// A built-in initial topology for the curve.
#[derive(Clone, Copy, PartialEq, Eq, Structural, Debug)]
pub enum Preset {
    /// A closed loop: `points` evenly spaced samples on a circle.
    CIRCLE {
        /// Circle radius in milli-units.
        radius: i64,
        /// Total number of samples, anchors included.
        points: usize,
    },
    /// An open sine-perturbed horizontal line.
    ACROSS {
        /// Half the horizontal extent, in milli-units.
        half_width: i64,
        /// Amplitude of the vertical sine perturbation, in milli-units.
        amplitude: i64,
        /// Angular frequency: radians of sine per unit of the parameter.
        waves: i64,
        /// Total number of samples, anchors included.
        points: usize,
    },
}

/// Bounds under which a preset produces a well-formed curve.
pub open spec fn preset_valid(p: Preset) -> bool {
    match p {
        Preset::CIRCLE { radius, points } => 1 <= radius <= 800_000_000 && 3 <= points
            <= 1_000_000,
        Preset::ACROSS { half_width, amplitude, waves, points } => {
            &&& 1 <= half_width <= 800_000_000
            &&& 0 <= amplitude <= 90_000_000
            &&& 0 <= waves <= 1000
            &&& 3 <= points <= 1_000_000
        },
    }
}

/// The angle of circle sample `i` out of `points`: its share of a turn.
pub open spec fn circle_angle(points: int, i: int) -> int {
    (i * TURN) / points
}

/// The wave parameter of sample `i` out of `points`, in milli-units over
/// `[-1000, 1000]`.
pub open spec fn across_t(points: int, i: int) -> int {
    (i * 2000) / (points - 1) - 1000
}

/// The sine argument of the wave at parameter `t_m`, folded into one turn:
/// `t * waves` radians, converted at 652 units per radian.
pub open spec fn across_angle(waves: int, t_m: int) -> int {
    (tdiv(t_m * waves * 652, 1000) + 655_360) % (TURN as int)
}

/// The sample node a preset places at index `i`.
pub open spec fn preset_node(p: Preset, i: int) -> Node {
    match p {
        Preset::CIRCLE { radius, points } => {
            let a = circle_angle(points as int, i);
            Node {
                loc: Vec2Fx {
                    x: tdiv(spec_sin(a) * radius, 1000) as i64,
                    y: tdiv(spec_cos(a) * radius, 1000) as i64,
                },
                tangent: Vec2Fx { x: 0, y: 0 },
                bitangent: Vec2Fx { x: 0, y: 0 },
                color: Rgba { r: 1000, g: 200, b: 200, a: 1000 },
            }
        },
        Preset::ACROSS { half_width, amplitude, waves, points } => {
            let t_m = across_t(points as int, i);
            let ang = across_angle(waves as int, t_m);
            Node {
                loc: Vec2Fx {
                    x: (tdiv(t_m * half_width, 1000) + 100) as i64,
                    y: tdiv(spec_sin(ang) * amplitude, 1000) as i64,
                },
                tangent: Vec2Fx { x: 0, y: 0 },
                bitangent: Vec2Fx { x: 0, y: 0 },
                color: Rgba { r: 1000, g: 1000, b: 1000, a: 1000 },
            }
        },
    }
}

/// How many samples a preset lays down.
pub open spec fn preset_points(p: Preset) -> int {
    match p {
        Preset::CIRCLE { points, .. } => points as int,
        Preset::ACROSS { points, .. } => points as int,
    }
}

/// Seed the curve from a preset: the first sample becomes the start
/// anchor, the last the end anchor, the rest the interior nodes in order;
/// the circle is closed, the wave open. The accumulator is untouched.
pub fn apply_preset(river: &mut River, preset: &Preset) -> (r: Result<(), ConfigError>)
    ensures
        !preset_valid(*preset) ==> r == Result::<(), ConfigError>::Err(
            ConfigError::ExtentOutOfRange,
        ) && *final(river) == *old(river),
        preset_valid(*preset) ==> {
            &&& r is Ok
            &&& final(river).start == preset_node(*preset, 0)
            &&& final(river).end == preset_node(*preset, preset_points(*preset) - 1)
            &&& final(river).segments@.len() == preset_points(*preset) - 2
            &&& forall|j: int|
                0 <= j < preset_points(*preset) - 2 ==> #[trigger] final(river).segments@[j]
                    == preset_node(*preset, j + 1)
            &&& final(river).closed == (*preset is CIRCLE)
            &&& final(river).river_builder == old(river).river_builder
            &&& river_wf(*final(river))
        },
{
    let valid = match preset {
        Preset::CIRCLE { radius, points } => 1 <= *radius && *radius <= 800_000_000 && 3
            <= *points && *points <= 1_000_000,
        Preset::ACROSS { half_width, amplitude, waves, points } => 1 <= *half_width
            && *half_width <= 800_000_000 && 0 <= *amplitude && *amplitude <= 90_000_000 && 0
            <= *waves && *waves <= 1000 && 3 <= *points && *points <= 1_000_000,
    };
    if !valid {
        return Err(ConfigError::ExtentOutOfRange);
    }
    let total: usize = match preset {
        Preset::CIRCLE { points, .. } => *points,
        Preset::ACROSS { points, .. } => *points,
    };
    let mut nodes: Vec<Node> = Vec::new();
    let mut i: usize = 0;
    while i < total
        invariant
            i <= total,
            total == preset_points(*preset),
            preset_valid(*preset),
            nodes@.len() == i,
            forall|j: int| 0 <= j < i ==> #[trigger] nodes@[j] == preset_node(*preset, j),
            forall|j: int| 0 <= j < i ==> node_wf(#[trigger] nodes@[j]),
        decreases total - i,
    {
        let nd = preset_sample(preset, i, total);
        nodes.push(nd);
        i = i + 1;
    }
    river.closed = match preset {
        Preset::CIRCLE { .. } => true,
        Preset::ACROSS { .. } => false,
    };
    let mut segs: Vec<Node> = Vec::new();
    let mut j: usize = 1;
    while j < total - 1
        invariant
            1 <= j <= total - 1,
            3 <= total,
            nodes@.len() == total,
            segs@.len() == j - 1,
            forall|k: int| 0 <= k < nodes@.len() ==> #[trigger] nodes@[k] == preset_node(
                *preset,
                k,
            ),
            forall|k: int| 0 <= k < nodes@.len() ==> node_wf(#[trigger] nodes@[k]),
            forall|k: int| 0 <= k < j - 1 ==> #[trigger] segs@[k] == nodes@[k + 1],
            forall|k: int| 0 <= k < j - 1 ==> node_wf(#[trigger] segs@[k]),
        decreases total - j,
    {
        segs.push(nodes[j]);
        j = j + 1;
    }
    river.start = nodes[0];
    river.end = nodes[total - 1];
    river.segments = segs;
    Ok(())
}

/// One sample of a preset.
fn preset_sample(preset: &Preset, i: usize, total: usize) -> (r: Node)
    requires
        preset_valid(*preset),
        total == preset_points(*preset),
        i < total,
    ensures
        r == preset_node(*preset, i as int),
        node_wf(r),
{
    match preset {
        Preset::CIRCLE { radius, points } => {
            let a: i64 = ((i as i64) * TURN) / (*points as i64);
            proof {
                assert(0 <= (i as int) * (TURN as int) <= (points as int) * (TURN as int))
                    by (nonlinear_arith)
                    requires
                        0 <= i < (points as int),
                        TURN == 4096,
                ;
                lemma_div_mono_num(
                    (i as int) * (TURN as int),
                    ((points as int) - 1) * (TURN as int),
                    points as int,
                );
                assert((i as int) * (TURN as int) <= ((points as int) - 1) * (TURN as int))
                    by (nonlinear_arith)
                    requires
                        i <= (points as int) - 1,
                        TURN == 4096,
                ;
                assert((((points as int) - 1) * (TURN as int)) / (points as int) < TURN as int)
                    by (nonlinear_arith)
                    requires
                        (points as int) >= 1,
                        TURN == 4096,
                ;
                assert(0 <= ((i as int) * (TURN as int)) / (points as int)) by (nonlinear_arith)
                    requires
                        0 <= (i as int) * (TURN as int),
                        (points as int) >= 1,
                ;
            }
            let sv = sin_fx(a);
            let cv = cos_fx(a);
            proof {
                assert(sv * (*radius) <= 1000 * 800_000_000i64 && sv * (*radius) >= -(1000
                    * 800_000_000i64)) by (nonlinear_arith)
                    requires
                        -1000 <= sv <= 1000,
                        1 <= *radius <= 800_000_000,
                ;
                assert(cv * (*radius) <= 1000 * 800_000_000i64 && cv * (*radius) >= -(1000
                    * 800_000_000i64)) by (nonlinear_arith)
                    requires
                        -1000 <= cv <= 1000,
                        1 <= *radius <= 800_000_000,
                ;
                lemma_tdiv_bounds(sv as int * (*radius as int), 1000);
                lemma_tdiv_bounds(cv as int * (*radius as int), 1000);
            }
            let x: i64 = div_trunc(sv * *radius, 1000);
            let y: i64 = div_trunc(cv * *radius, 1000);
            Node {
                loc: Vec2Fx { x, y },
                tangent: Vec2Fx { x: 0, y: 0 },
                bitangent: Vec2Fx { x: 0, y: 0 },
                color: Rgba { r: 1000, g: 200, b: 200, a: 1000 },
            }
        },
        Preset::ACROSS { half_width, amplitude, waves, points } => {
            let t_m: i64 = ((i as i64) * 2000) / ((*points as i64) - 1) - 1000;
            proof {
                assert(0 <= (i as int) * 2000 <= ((points as int) - 1) * 2000) by (nonlinear_arith)
                    requires
                        0 <= i <= (points as int) - 1,
                ;
                lemma_div_mono_num(
                    (i as int) * 2000,
                    ((points as int) - 1) * 2000,
                    (points as int) - 1,
                );
                assert((((points as int) - 1) * 2000) / ((points as int) - 1) == 2000)
                    by (nonlinear_arith)
                    requires
                        (points as int) - 1 >= 1,
                ;
                assert(0 <= ((i as int) * 2000) / ((points as int) - 1)) by (nonlinear_arith)
                    requires
                        0 <= (i as int) * 2000,
                        (points as int) - 1 >= 1,
                ;
            }
            proof {
                assert(t_m * (*waves as int) * 652 <= 652_000_000i64 && t_m * (*waves as int) * 652
                    >= -652_000_000i64) by (nonlinear_arith)
                    requires
                        -1000 <= t_m <= 1000,
                        0 <= *waves <= 1000,
                ;
            }
            let prod: i64 = t_m * *waves * 652;
            proof {
                lemma_tdiv_bounds(prod as int, 1000);
            }
            let ang: i64 = (div_trunc(prod, 1000) + 655_360) % TURN;
            let sv = sin_fx(ang);
            proof {
                assert(t_m * (*half_width as int) <= 1000 * 800_000_000i64 && t_m
                    * (*half_width as int) >= -(1000 * 800_000_000i64)) by (nonlinear_arith)
                    requires
                        -1000 <= t_m <= 1000,
                        1 <= *half_width <= 800_000_000,
                ;
                lemma_tdiv_bounds(t_m as int * (*half_width as int), 1000);
                assert(sv * (*amplitude as int) <= 1000 * 90_000_000i64 && sv
                    * (*amplitude as int) >= -(1000 * 90_000_000i64)) by (nonlinear_arith)
                    requires
                        -1000 <= sv <= 1000,
                        0 <= *amplitude <= 90_000_000,
                ;
                lemma_tdiv_bounds(sv as int * (*amplitude as int), 1000);
            }
            let x: i64 = div_trunc(t_m * *half_width, 1000) + 100;
            let y: i64 = div_trunc(sv * *amplitude, 1000);
            Node {
                loc: Vec2Fx { x, y },
                tangent: Vec2Fx { x: 0, y: 0 },
                bitangent: Vec2Fx { x: 0, y: 0 },
                color: Rgba { r: 1000, g: 1000, b: 1000, a: 1000 },
            }
        },
    }
}

impl Default for Preset {
    /// The default open wave: canvas half-width 360, amplitude 36 world
    /// units, twenty radians of sine across, 500 samples.
    fn default() -> (r: Preset)
        ensures
            r == (Preset::ACROSS {
                half_width: 360_000i64,
                amplitude: 36_000i64,
                waves: 20i64,
                points: 500usize,
            }),
            preset_valid(r),
    {
        Preset::ACROSS { half_width: 360_000, amplitude: 36_000, waves: 20, points: 500 }
    }
}

} // verus!
