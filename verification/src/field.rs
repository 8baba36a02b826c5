//! A seeded, deterministic scalar field over the plane: multi-octave
//! coherent value noise in fixed-point arithmetic, bounded to `[-ONE, ONE]`,
//! with a "dry land" sentinel of `ONE` outside a configured bounding
//! rectangle. Two instances with different seeds and scales model terrain
//! height and channel width; they share no state.

use vstd::prelude::*;

use crate::ONE;
use crate::config::ConfigError;
use crate::fixed::div_trunc;
use crate::fixed::clamp_i64;
use crate::fixed::lemma_div_mono_num;
use crate::fixed::lemma_tdiv_bounds;
use crate::fixed::spec_clamp;
use crate::fixed::tdiv;
use crate::vec2::Vec2Fx;

verus! {

/// Translation applied before lattice indexing, so cell coordinates are
/// never negative for any in-bounds query point.
pub const WORLD_SHIFT: i64 = 400_000_000;

/// Number of noise octaves summed by `get`.
pub const OCTAVES: u64 = 6;

/// A seeded scalar field ("height map" or "width map").
#[derive(Clone, Copy, PartialEq, Eq, Structural, Debug)]
pub struct Heightmap {
    /// Seed deciding the lattice values; two fields with different seeds
    /// are independent.
    pub seed: u64,
    /// Spatial scale in milli-units: the size of one noise cell.
    pub scale: i64,
    /// Half width of the in-bounds rectangle, in milli-units.
    pub half_w: i64,
    /// Half height of the in-bounds rectangle, in milli-units.
    pub half_h: i64,
}

/// Ranges under which every query of the field is overflow-free.
pub open spec fn field_wf(h: Heightmap) -> bool {
    &&& 1 <= h.scale <= 100_000_000
    &&& 0 <= h.half_w <= 10_000_000
    &&& 0 <= h.half_h <= 10_000_000
}

/// Strictly inside the configured bounding rectangle.
pub open spec fn spec_in_bounds(h: Heightmap, x: int, y: int) -> bool {
    -h.half_w < x < h.half_w && -h.half_h < y < h.half_h
}

/// The pseudo-random lattice value at integer cell `(cx, cy)` for one
/// octave: a linear combination of the coordinates, seed and octave,
/// scrambled by two multiplicative congruential rounds and mapped into
/// `[-ONE, ONE]`.
#[verifier::opaque]
pub open spec fn spec_lattice(seed: u64, oct: u64, cx: int, cy: int) -> int {
    let m = 2147483647int;
    let a = cx % m;
    let b = cy % m;
    let c = (seed as int) % m;
    let d = (oct as int) % m;
    let h1 = (a * 374761393 + b * 668265263 + c * 1009 + d * 10007) % m;
    let h2 = (h1 * 48271) % m;
    let h3 = (h2 * 16807 + 12345) % m;
    h3 % 2001 - 1000
}

/// Linear interpolation from `p` to `q` by `t` thousandths.
pub open spec fn spec_lerp(p: int, q: int, t: int) -> int {
    p + tdiv((q - p) * t, 1000)
}

/// One octave of value noise at the (shifted) point `(px, py)`: bilinear
/// interpolation of the four surrounding lattice values.
pub open spec fn spec_octave(seed: u64, oct: u64, px: int, py: int, scale: int) -> int {
    let qx = px + WORLD_SHIFT;
    let qy = py + WORLD_SHIFT;
    let cx = qx / scale;
    let cy = qy / scale;
    let u = (qx % scale) * 1000 / scale;
    let w = (qy % scale) * 1000 / scale;
    let v00 = spec_lattice(seed, oct, cx, cy);
    let v10 = spec_lattice(seed, oct, cx + 1, cy);
    let v01 = spec_lattice(seed, oct, cx, cy + 1);
    let v11 = spec_lattice(seed, oct, cx + 1, cy + 1);
    spec_lerp(spec_lerp(v00, v10, u), spec_lerp(v01, v11, u), w)
}

/// The six octaves summed with halving amplitudes (total weight 63).
pub open spec fn spec_noise(seed: u64, x: int, y: int, scale: int) -> int {
    spec_octave(seed, 0, x, y, scale) * 32 + spec_octave(seed, 1, x * 2, y * 2, scale) * 16
        + spec_octave(seed, 2, x * 4, y * 4, scale) * 8 + spec_octave(seed, 3, x * 8, y * 8, scale)
        * 4 + spec_octave(seed, 4, x * 16, y * 16, scale) * 2 + spec_octave(
        seed,
        5,
        x * 32,
        y * 32,
        scale,
    )
}

/// What `get` returns: the clamped noise value inside the rectangle, the
/// dry-land sentinel `ONE` outside it.
pub open spec fn spec_get(h: Heightmap, x: int, y: int) -> int {
    if spec_in_bounds(h, x, y) {
        spec_clamp(tdiv(spec_noise(h.seed, x, y, h.scale as int), 63), -ONE as int, ONE as int)
    } else {
        ONE as int
    }
}

impl Heightmap {
    /// Validate and build a field from a seed, a spatial scale and the
    /// half-extents of its bounding rectangle. `Ok` exactly when scale and
    /// extents are in range.
    pub fn new(seed: u64, scale: i64, half_w: i64, half_h: i64) -> (r: Result<
        Heightmap,
        ConfigError,
    >)
        ensures
            r is Ok <==> field_wf((Heightmap { seed, scale, half_w, half_h })),
            r is Ok ==> r->Ok_0 == (Heightmap { seed, scale, half_w, half_h }),
            scale < 1 || scale > 100_000_000 ==> r == Result::<Heightmap, ConfigError>::Err(
                ConfigError::ScaleOutOfRange,
            ),
    {
        if scale < 1 || scale > 100_000_000 {
            return Err(ConfigError::ScaleOutOfRange);
        }
        if half_w < 0 || half_w > 10_000_000 {
            return Err(ConfigError::ExtentOutOfRange);
        }
        if half_h < 0 || half_h > 10_000_000 {
            return Err(ConfigError::ExtentOutOfRange);
        }
        Ok(Heightmap { seed, scale, half_w, half_h })
    }

    /// Whether a point lies strictly inside the bounding rectangle.
    pub fn in_bounds(&self, p: Vec2Fx) -> (r: bool)
        requires
            field_wf(*self),
        ensures
            r == spec_in_bounds(*self, p.x as int, p.y as int),
    {
        p.x > -self.half_w && p.x < self.half_w && p.y > -self.half_h && p.y < self.half_h
    }

    /// The lattice value of one octave at one integer cell.
    #[verifier::rlimit(100)]
    fn lattice(&self, oct: u64, cx: i64, cy: i64) -> (r: i64)
        requires
            0 <= cx,
            0 <= cy,
        ensures
            r as int == spec_lattice(self.seed, oct, cx as int, cy as int),
            -ONE <= r <= ONE,
    {
        proof {
            reveal(spec_lattice);
        }
        let m: u64 = 2147483647;
        let a: u64 = (cx as u64) % m;
        let b: u64 = (cy as u64) % m;
        let c: u64 = self.seed % m;
        let o: u64 = oct % m;
        let h1: u64 = (a * 374761393 + b * 668265263 + c * 1009 + o * 10007) % m;
        let h2: u64 = (h1 * 48271) % m;
        let h3: u64 = (h2 * 16807 + 12345) % m;
        let v: u64 = h3 % 2001;
        (v as i64) - 1000
    }

    /// One octave of bilinear value noise at a pre-scaled point.
    #[verifier::rlimit(100)]
    fn octave(&self, oct: u64, px: i64, py: i64) -> (r: i64)
        requires
            field_wf(*self),
            -WORLD_SHIFT < px < WORLD_SHIFT,
            -WORLD_SHIFT < py < WORLD_SHIFT,
        ensures
            r as int == spec_octave(self.seed, oct, px as int, py as int, self.scale as int),
            -ONE <= r <= ONE,
    {
        let qx: i64 = px + WORLD_SHIFT;
        let qy: i64 = py + WORLD_SHIFT;
        let cx: i64 = qx / self.scale;
        let cy: i64 = qy / self.scale;
        let u: i64 = (qx % self.scale) * 1000 / self.scale;
        let w: i64 = (qy % self.scale) * 1000 / self.scale;
        proof {
            assert(0 <= qx % self.scale < self.scale && 0 <= qy % self.scale < self.scale);
            assert((qx % self.scale) * 1000 <= 100_000_000_000i64 && (qx % self.scale) * 1000 >= 0)
                by (nonlinear_arith)
                requires
                    0 <= qx % self.scale <= 100_000_000,
            ;
            assert((qy % self.scale) * 1000 <= 100_000_000_000i64 && (qy % self.scale) * 1000 >= 0)
                by (nonlinear_arith)
                requires
                    0 <= qy % self.scale <= 100_000_000,
            ;
            assert(0 <= u < 1000 && 0 <= w < 1000) by (nonlinear_arith)
                requires
                    u as int == (qx % self.scale) * 1000 / (self.scale as int),
                    w as int == (qy % self.scale) * 1000 / (self.scale as int),
                    0 <= qx % self.scale < self.scale,
                    0 <= qy % self.scale < self.scale,
                    1 <= self.scale,
            ;
            assert(0 <= cx && 0 <= cy);
        }
        let v00: i64 = self.lattice(oct, cx, cy);
        let v10: i64 = self.lattice(oct, cx + 1, cy);
        let v01: i64 = self.lattice(oct, cx, cy + 1);
        let v11: i64 = self.lattice(oct, cx + 1, cy + 1);
        let l1: i64 = Self::lerp(v00, v10, u);
        let l2: i64 = Self::lerp(v01, v11, u);
        Self::lerp(l1, l2, w)
    }

    /// Linear interpolation by thousandths, exactly `spec_lerp`; the result
    /// never leaves the interval spanned by its endpoints.
    fn lerp(p: i64, q: i64, t: i64) -> (r: i64)
        requires
            0 <= t <= 1000,
            -4_010_000 <= p <= 4_010_000,
            -4_010_000 <= q <= 4_010_000,
        ensures
            r as int == spec_lerp(p as int, q as int, t as int),
            p <= q ==> p <= r <= q,
            q <= p ==> q <= r <= p,
    {
        proof {
            assert((q - p) * t <= 8_020_000i64 * 1000 && (q - p) * t >= -(8_020_000i64 * 1000))
                by (nonlinear_arith)
                requires
                    -8_020_000 <= q - p <= 8_020_000,
                    0 <= t <= 1000,
            ;
        }
        let d: i64 = (q - p) * t;
        proof {
            lemma_tdiv_bounds(d as int, 1000);
            if q >= p {
                assert(d <= (q - p) * 1000 && d >= 0) by (nonlinear_arith)
                    requires
                        d == (q - p) * t,
                        0 <= q - p,
                        0 <= t <= 1000,
                ;
                lemma_div_mono_num(d as int, (q - p) * 1000, 1000);
                assert(((q - p) * 1000) / 1000 == q - p) by (nonlinear_arith);
            } else {
                assert(-d <= (p - q) * 1000 && d <= 0) by (nonlinear_arith)
                    requires
                        d == (q - p) * t,
                        0 <= p - q,
                        0 <= t <= 1000,
                ;
                lemma_div_mono_num(-(d as int), (p - q) * 1000, 1000);
                assert(((p - q) * 1000) / 1000 == p - q) by (nonlinear_arith);
            }
        }
        p + div_trunc(d, 1000)
    }

    /// Sample the field at a point. Deterministic in the seed; always in
    /// `[-ONE, ONE]`; exactly `ONE` ("dry land") outside the bounding
    /// rectangle.
    pub fn get(&self, p: Vec2Fx) -> (r: i64)
        requires
            field_wf(*self),
        ensures
            r as int == spec_get(*self, p.x as int, p.y as int),
            -ONE <= r <= ONE,
            !spec_in_bounds(*self, p.x as int, p.y as int) ==> r == ONE,
    {
        if !self.in_bounds(p) {
            return ONE;
        }
        let o0: i64 = self.octave(0, p.x, p.y);
        let o1: i64 = self.octave(1, p.x * 2, p.y * 2);
        let o2: i64 = self.octave(2, p.x * 4, p.y * 4);
        let o3: i64 = self.octave(3, p.x * 8, p.y * 8);
        let o4: i64 = self.octave(4, p.x * 16, p.y * 16);
        let o5: i64 = self.octave(5, p.x * 32, p.y * 32);
        let total: i64 = o0 * 32 + o1 * 16 + o2 * 8 + o3 * 4 + o4 * 2 + o5;
        proof {
            lemma_tdiv_bounds(total as int, 63);
        }
        let raw: i64 = div_trunc(total, 63);
        clamp_i64(raw, -ONE, ONE)
    }
}

} // verus!
