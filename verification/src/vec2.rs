//! Plane vectors in fixed-point milli-units, and the per-node color.
//!
//! `normalize_or_zero` is the degenerate-geometry policy of the whole
//! pipeline: it is total, returns the zero vector for the zero vector, and
//! always yields components within one unit length — the integer counterpart
//! of "never NaN or infinite".

use vstd::prelude::*;

use crate::ONE;
use crate::fixed::is_sqrt_floor;
use crate::fixed::lemma_div_mono_num;
use crate::fixed::lemma_sqrt_floor_is;
use crate::fixed::lemma_sqrt_floor_mono;
use crate::fixed::lemma_sqrt_floor_square;
use crate::fixed::sqrt_floor;
use crate::fixed::tdiv;
use crate::fixed::div_trunc;
use crate::fixed::isqrt;

verus! {

/// Magnitude cap under which all vector arithmetic here is overflow-free.
pub const VEC_LIMIT: i64 = 1_050_000_000;

/// A point or direction of the plane, in milli-units.
#[derive(Clone, Copy, PartialEq, Eq, Structural, Debug)]
pub struct Vec2Fx {
    pub x: i64,
    pub y: i64,
}

/// A color with milli-scaled channels (1000 = full intensity).
#[derive(Clone, Copy, PartialEq, Eq, Structural, Debug)]
pub struct Rgba {
    pub r: i64,
    pub g: i64,
    pub b: i64,
    pub a: i64,
}

/// Both components within `[-b, b]`.
pub open spec fn in_range(v: Vec2Fx, b: int) -> bool {
    -b <= v.x <= b && -b <= v.y <= b
}

/// Squared Euclidean norm.
pub open spec fn norm_sq(x: int, y: int) -> int {
    x * x + y * y
}

/// Squared distance between two points.
pub open spec fn spec_dist_sq(a: Vec2Fx, b: Vec2Fx) -> int {
    norm_sq(a.x - b.x, a.y - b.y)
}

/// Rounded length of the vector `(x, y)`.
pub open spec fn spec_len(x: int, y: int) -> int {
    sqrt_floor(norm_sq(x, y))
}

/// The normalize-or-zero policy: zero stays zero, anything else is scaled
/// to (approximately) unit length `ONE`.
pub open spec fn spec_norm_or_zero(x: int, y: int) -> (int, int) {
    if x == 0 && y == 0 {
        (0, 0)
    } else {
        (tdiv(x * ONE, spec_len(x, y)), tdiv(y * ONE, spec_len(x, y)))
    }
}

/// The rounded length dominates each component's magnitude.
pub proof fn lemma_len_dominates(x: int, y: int)
    requires
        x != 0 || y != 0,
    ensures
        spec_len(x, y) >= 1,
        -spec_len(x, y) <= x <= spec_len(x, y),
        -spec_len(x, y) <= y <= spec_len(x, y),
{
    let n = norm_sq(x, y);
    assert(x * x >= 0 && y * y >= 0) by (nonlinear_arith);
    assert(n >= x * x && n >= y * y);
    let ax = if x >= 0 { x } else { -x };
    let ay = if y >= 0 { y } else { -y };
    assert(ax * ax == x * x) by (nonlinear_arith)
        requires
            ax == x || ax == -x,
    ;
    assert(ay * ay == y * y) by (nonlinear_arith)
        requires
            ay == y || ay == -y,
    ;
    lemma_sqrt_floor_square(ax);
    lemma_sqrt_floor_square(ay);
    lemma_sqrt_floor_mono(ax * ax, n);
    lemma_sqrt_floor_mono(ay * ay, n);
    assert(n >= 1) by (nonlinear_arith)
        requires
            n == x * x + y * y,
            x != 0 || y != 0,
    ;
    lemma_sqrt_floor_mono(1, n);
    assert(sqrt_floor(1) == 1) by {
        assert(is_sqrt_floor(1, 1));
        lemma_sqrt_floor_is(1, 1);
    }
}

/// A component scaled by `ONE / len` keeps magnitude at most `ONE` when the
/// length dominates it.
pub proof fn lemma_scaled_component_bounded(c: int, len: int)
    requires
        1 <= len,
        -len <= c <= len,
    ensures
        -ONE <= tdiv(c * ONE, len) <= ONE,
{
    let ac = if c >= 0 {
        c
    } else {
        -c
    };
    assert(c * (ONE as int) == if c >= 0 {
        ac * (ONE as int)
    } else {
        -(ac * (ONE as int))
    }) by (nonlinear_arith)
        requires
            (c >= 0 && ac == c) || (c < 0 && ac == -c),
    ;
    assert(ac * (ONE as int) <= len * (ONE as int) && 0 <= ac * (ONE as int)) by (nonlinear_arith)
        requires
            0 <= ac <= len,
            (ONE as int) > 0,
    ;
    lemma_div_mono_num(ac * (ONE as int), len * (ONE as int), len);
    assert((len * (ONE as int)) / len == ONE) by (nonlinear_arith)
        requires
            len >= 1,
    ;
}

/// The normalize-or-zero policy never yields a component beyond `ONE` in
/// magnitude, for any input whatsoever.
pub proof fn lemma_norm_or_zero_bounded(x: int, y: int)
    ensures
        -ONE <= spec_norm_or_zero(x, y).0 <= ONE,
        -ONE <= spec_norm_or_zero(x, y).1 <= ONE,
{
    if x == 0 && y == 0 {
    } else {
        lemma_len_dominates(x, y);
        let len = spec_len(x, y);
        lemma_scaled_component_bounded(x, len);
        lemma_scaled_component_bounded(y, len);
    }
}

impl Vec2Fx {
    /// The origin / zero direction.
    pub fn zero() -> (r: Vec2Fx)
        ensures
            r.x == 0 && r.y == 0,
    {
        Vec2Fx { x: 0, y: 0 }
    }

    /// Component-wise sum.
    pub fn add_v(self, o: Vec2Fx) -> (r: Vec2Fx)
        requires
            self.x + o.x <= i64::MAX,
            self.x + o.x >= i64::MIN,
            self.y + o.y <= i64::MAX,
            self.y + o.y >= i64::MIN,
        ensures
            r.x == self.x + o.x,
            r.y == self.y + o.y,
    {
        Vec2Fx { x: self.x + o.x, y: self.y + o.y }
    }

    /// Component-wise difference.
    pub fn sub_v(self, o: Vec2Fx) -> (r: Vec2Fx)
        requires
            self.x - o.x <= i64::MAX,
            self.x - o.x >= i64::MIN,
            self.y - o.y <= i64::MAX,
            self.y - o.y >= i64::MIN,
        ensures
            r.x == self.x - o.x,
            r.y == self.y - o.y,
    {
        Vec2Fx { x: self.x - o.x, y: self.y - o.y }
    }

    /// The perpendicular vector, a quarter turn counter-clockwise.
    pub fn perp(self) -> (r: Vec2Fx)
        requires
            i64::MIN < self.y,
        ensures
            r.x == -self.y,
            r.y == self.x,
    {
        Vec2Fx { x: -self.y, y: self.x }
    }

    /// Squared distance to `o`.
    pub fn dist_sq(self, o: Vec2Fx) -> (r: i64)
        requires
            in_range(self, VEC_LIMIT as int),
            in_range(o, VEC_LIMIT as int),
        ensures
            r as int == spec_dist_sq(self, o),
            r >= 0,
    {
        let dx: i64 = self.x - o.x;
        let dy: i64 = self.y - o.y;
        proof {
            assert(dx * dx <= 2_100_000_000i64 * 2_100_000_000i64 && dx * dx >= 0)
                by (nonlinear_arith)
                requires
                    -2_100_000_000 <= dx <= 2_100_000_000,
            ;
            assert(dy * dy <= 2_100_000_000i64 * 2_100_000_000i64 && dy * dy >= 0)
                by (nonlinear_arith)
                requires
                    -2_100_000_000 <= dy <= 2_100_000_000,
            ;
        }
        dx * dx + dy * dy
    }

    /// Rounded Euclidean distance to `o`.
    pub fn dist(self, o: Vec2Fx) -> (r: i64)
        requires
            in_range(self, VEC_LIMIT as int),
            in_range(o, VEC_LIMIT as int),
        ensures
            r as int == sqrt_floor(spec_dist_sq(self, o)),
            0 <= r <= 2_970_000_000i64,
    {
        let d2: i64 = self.dist_sq(o);
        proof {
            assert(d2 <= 8_820_000_000_000_000_000i64) by (nonlinear_arith)
                requires
                    d2 as int == spec_dist_sq(self, o),
                    in_range(self, VEC_LIMIT as int),
                    in_range(o, VEC_LIMIT as int),
                    VEC_LIMIT == 1_050_000_000,
            ;
        }
        let r = isqrt(d2);
        proof {
            if r > 2_970_000_000i64 {
                assert(r * r > 8_820_000_000_000_000_000i64) by (nonlinear_arith)
                    requires
                        r > 2_970_000_000i64,
                ;
            }
        }
        r
    }

    /// The 2-D cross product (perp-dot) of `self` and `o`.
    pub fn perp_dot(self, o: Vec2Fx) -> (r: i64)
        requires
            in_range(self, 2_000_000i64 as int),
            in_range(o, 2_000_000i64 as int),
        ensures
            r as int == self.x * o.y - self.y * o.x,
    {
        proof {
            assert(self.x * o.y <= 2_000_000i64 * 2_000_000i64 && self.x * o.y >= -(
            2_000_000i64 * 2_000_000i64)) by (nonlinear_arith)
                requires
                    -2_000_000 <= self.x <= 2_000_000,
                    -2_000_000 <= o.y <= 2_000_000,
            ;
            assert(self.y * o.x <= 2_000_000i64 * 2_000_000i64 && self.y * o.x >= -(
            2_000_000i64 * 2_000_000i64)) by (nonlinear_arith)
                requires
                    -2_000_000 <= self.y <= 2_000_000,
                    -2_000_000 <= o.x <= 2_000_000,
            ;
        }
        self.x * o.y - self.y * o.x
    }

    /// Normalize to length `ONE`, or return zero for the zero vector.
    /// Total for every in-range input; components never exceed `ONE` in
    /// magnitude.
    pub fn normalize_or_zero(self) -> (r: Vec2Fx)
        requires
            in_range(self, VEC_LIMIT as int + VEC_LIMIT as int),
        ensures
            (r.x as int, r.y as int) == spec_norm_or_zero(self.x as int, self.y as int),
            -ONE <= r.x <= ONE,
            -ONE <= r.y <= ONE,
            self.x == 0 && self.y == 0 ==> r.x == 0 && r.y == 0,
    {
        if self.x == 0 && self.y == 0 {
            Vec2Fx { x: 0, y: 0 }
        } else {
            proof {
                assert(self.x * self.x <= 2_100_000_000i64 * 2_100_000_000i64 && self.x * self.x
                    >= 0) by (nonlinear_arith)
                    requires
                        -2_100_000_000 <= self.x <= 2_100_000_000,
                ;
                assert(self.y * self.y <= 2_100_000_000i64 * 2_100_000_000i64 && self.y * self.y
                    >= 0) by (nonlinear_arith)
                    requires
                        -2_100_000_000 <= self.y <= 2_100_000_000,
                ;
            }
            let n: i64 = self.x * self.x + self.y * self.y;
            let len: i64 = isqrt(n);
            proof {
                lemma_len_dominates(self.x as int, self.y as int);
            }
            let rx: i64 = Self::scaled_div(self.x, len);
            let ry: i64 = Self::scaled_div(self.y, len);
            Vec2Fx { x: rx, y: ry }
        }
    }

    /// `c * ONE / len` with truncation, bounded by `ONE` when `|c| <= len`.
    fn scaled_div(c: i64, len: i64) -> (r: i64)
        requires
            1 <= len,
            -len <= c <= len,
            len <= 4_000_000_000,
        ensures
            r as int == tdiv(c * ONE, len as int),
            -ONE <= r <= ONE,
    {
        proof {
            assert(c * (ONE as int) <= len * (ONE as int) && -(len * (ONE as int)) <= c * (
            ONE as int)) by (nonlinear_arith)
                requires
                    -len <= c <= len,
                    (ONE as int) > 0,
            ;
            assert(len * (ONE as int) <= 4_000_000_000i64 * 1000) by (nonlinear_arith)
                requires
                    len <= 4_000_000_000,
                    ONE == 1000,
            ;
            lemma_scaled_component_bounded(c as int, len as int);
        }
        div_trunc(c * ONE, len)
    }
}

} // verus!
