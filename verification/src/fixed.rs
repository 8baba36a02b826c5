//! Fixed-point scalar helpers: integer square root, truncating division,
//! clamping, and the lemmas that bound them.

use vstd::prelude::*;

verus! {

/// `r` is the floor of the square root of `n`.
pub open spec fn is_sqrt_floor(n: int, r: int) -> bool {
    0 <= r && r * r <= n && n < (r + 1) * (r + 1)
}

/// Floor of the square root of `n` (meaningful for `n >= 0`).
pub open spec fn sqrt_floor(n: int) -> int {
    choose|r: int| is_sqrt_floor(n, r)
}

/// Rust's truncating (round-toward-zero) signed division, as a spec value.
/// In spec code `/` is Euclidean; on non-negative operands the two agree,
/// so truncation is expressed by dividing magnitudes.
pub open spec fn tdiv(n: int, d: int) -> int {
    if n >= 0 {
        n / d
    } else {
        -((-n) / d)
    }
}

/// `v` clamped into `[lo, hi]`.
pub open spec fn spec_clamp(v: int, lo: int, hi: int) -> int {
    if v < lo {
        lo
    } else if v > hi {
        hi
    } else {
        v
    }
}

/// A square root witness exists for every non-negative integer.
pub proof fn lemma_sqrt_exists(n: nat)
    ensures
        exists|r: int| is_sqrt_floor(n as int, r),
    decreases n,
{
    if n == 0 {
        assert(is_sqrt_floor(0, 0));
    } else {
        lemma_sqrt_exists((n - 1) as nat);
        let m = n - 1;
        let r = choose|r: int| is_sqrt_floor(m, r);
        if n < (r + 1) * (r + 1) {
            assert(is_sqrt_floor(n as int, r));
        } else {
            assert((r + 1) * (r + 1) <= n);
            assert(n - 1 < (r + 1) * (r + 1));
            assert(n < (r + 2) * (r + 2)) by (nonlinear_arith)
                requires
                    n == (r + 1) * (r + 1),
                    r >= 0,
            ;
            assert(is_sqrt_floor(n as int, r + 1));
        }
    }
}

/// The square root witness is unique.
pub proof fn lemma_sqrt_unique(n: int, r1: int, r2: int)
    requires
        is_sqrt_floor(n, r1),
        is_sqrt_floor(n, r2),
    ensures
        r1 == r2,
{
    if r1 < r2 {
        assert((r1 + 1) * (r1 + 1) <= r2 * r2) by (nonlinear_arith)
            requires
                0 <= r1,
                r1 + 1 <= r2,
        ;
    }
    if r2 < r1 {
        assert((r2 + 1) * (r2 + 1) <= r1 * r1) by (nonlinear_arith)
            requires
                0 <= r2,
                r2 + 1 <= r1,
        ;
    }
}

/// Any witness names the value of `sqrt_floor`.
pub proof fn lemma_sqrt_floor_is(n: int, r: int)
    requires
        is_sqrt_floor(n, r),
    ensures
        sqrt_floor(n) == r,
{
    lemma_sqrt_exists(n as nat);
    let rc = choose|rc: int| is_sqrt_floor(n, rc);
    lemma_sqrt_unique(n, rc, r);
}

/// `sqrt_floor` of a perfect square.
pub proof fn lemma_sqrt_floor_square(x: int)
    requires
        0 <= x,
    ensures
        sqrt_floor(x * x) == x,
{
    assert(x * x < (x + 1) * (x + 1)) by (nonlinear_arith)
        requires
            0 <= x,
    ;
    lemma_sqrt_floor_is(x * x, x);
}

/// `sqrt_floor` is monotone.
pub proof fn lemma_sqrt_floor_mono(a: int, b: int)
    requires
        0 <= a <= b,
    ensures
        sqrt_floor(a) <= sqrt_floor(b),
{
    lemma_sqrt_exists(a as nat);
    lemma_sqrt_exists(b as nat);
    let ra = sqrt_floor(a);
    let rb = sqrt_floor(b);
    assert(is_sqrt_floor(a, ra));
    assert(is_sqrt_floor(b, rb));
    if rb < ra {
        assert((rb + 1) * (rb + 1) <= ra * ra) by (nonlinear_arith)
            requires
                0 <= rb,
                rb + 1 <= ra,
        ;
    }
}

/// Truncating division stays between zero and the dividend.
pub proof fn lemma_tdiv_bounds(n: int, d: int)
    requires
        d >= 1,
    ensures
        n >= 0 ==> 0 <= tdiv(n, d) <= n,
        n < 0 ==> n <= tdiv(n, d) <= 0,
        d == 1 ==> tdiv(n, d) == n,
{
    if n >= 0 {
        assert(0 <= n / d <= n) by (nonlinear_arith)
            requires
                n >= 0,
                d >= 1,
        ;
        if d == 1 {
            assert(n / 1 == n);
        }
    } else {
        assert(0 <= (-n) / d <= -n) by (nonlinear_arith)
            requires
                -n >= 0,
                d >= 1,
        ;
        if d == 1 {
            assert((-n) / 1 == -n);
        }
    }
}

/// The remainder left by truncating division has magnitude below `d`,
/// and the quotient times `d` never overshoots the dividend.
pub proof fn lemma_tdiv_rem(n: int, d: int)
    requires
        d >= 1,
    ensures
        n >= 0 ==> 0 <= n - tdiv(n, d) * d < d,
        n < 0 ==> -d < n - tdiv(n, d) * d <= 0,
{
    if n >= 0 {
        assert(n - (n / d) * d == n % d) by (nonlinear_arith)
            requires
                d >= 1,
        ;
        assert(0 <= n % d < d) by (nonlinear_arith)
            requires
                n >= 0,
                d >= 1,
        ;
    } else {
        let m = -n;
        assert(m - (m / d) * d == m % d) by (nonlinear_arith)
            requires
                d >= 1,
        ;
        assert(0 <= m % d < d) by (nonlinear_arith)
            requires
                m >= 0,
                d >= 1,
        ;
        let q = m / d;
        assert((-q) * d == -(q * d)) by (nonlinear_arith);
        assert(tdiv(n, d) * d == -(q * d));
    }
}

/// Dividing a larger magnitude by the same positive divisor gives a
/// quotient no closer to zero.
pub proof fn lemma_div_mono_num(a: int, b: int, d: int)
    requires
        0 <= a <= b,
        d >= 1,
    ensures
        a / d <= b / d,
{
    assert(a / d <= b / d) by (nonlinear_arith)
        requires
            0 <= a <= b,
            d >= 1,
    ;
}

/// Scaling a displacement by `d / len` with `d <= len` never overshoots the
/// displacement, and keeps its direction.
pub proof fn lemma_tdiv_scale_between(delta: int, d: int, len: int)
    requires
        1 <= len,
        0 <= d <= len,
    ensures
        delta >= 0 ==> 0 <= tdiv(delta * d, len) <= delta,
        delta < 0 ==> delta <= tdiv(delta * d, len) <= 0,
{
    if delta >= 0 {
        assert(0 <= delta * d <= delta * len) by (nonlinear_arith)
            requires
                0 <= delta,
                0 <= d <= len,
        ;
        lemma_div_mono_num(delta * d, delta * len, len);
        assert((delta * len) / len == delta) by (nonlinear_arith)
            requires
                len >= 1,
        ;
    } else {
        let m = -delta;
        assert(0 <= m * d <= m * len) by (nonlinear_arith)
            requires
                0 <= m,
                0 <= d <= len,
        ;
        assert(delta * d == -(m * d)) by (nonlinear_arith)
            requires
                m == -delta,
        ;
        lemma_div_mono_num(m * d, m * len, len);
        assert((m * len) / len == m) by (nonlinear_arith)
            requires
                len >= 1,
        ;
    }
}

/// Floor of the square root, by binary search.
pub fn isqrt(n: i64) -> (r: i64)
    requires
        0 <= n,
    ensures
        r as int == sqrt_floor(n as int),
        0 <= r <= 3_037_000_499,
        r * r <= n < (r + 1) * (r + 1),
{
    let mut lo: i64 = 0;
    let mut hi: i64 = 3_037_000_500;
    proof {
        assert(n < 3_037_000_500i64 * 3_037_000_500i64) by (nonlinear_arith)
            requires
                n <= i64::MAX,
        ;
    }
    while lo + 1 < hi
        invariant
            0 <= lo < hi <= 3_037_000_500,
            lo * lo <= n,
            n < hi * hi,
        decreases hi - lo,
    {
        let mid: i64 = lo + (hi - lo) / 2;
        proof {
            assert(mid * mid <= 3_037_000_499i64 * 3_037_000_499i64) by (nonlinear_arith)
                requires
                    0 <= mid <= 3_037_000_499,
            ;
        }
        if mid * mid <= n {
            lo = mid;
        } else {
            hi = mid;
        }
    }
    proof {
        assert(is_sqrt_floor(n as int, lo as int));
        lemma_sqrt_floor_is(n as int, lo as int);
    }
    lo
}

/// Truncating signed division by a positive divisor.
pub fn div_trunc(n: i64, d: i64) -> (r: i64)
    requires
        d >= 1,
        i64::MIN < n,
    ensures
        r as int == tdiv(n as int, d as int),
{
    if n >= 0 {
        n / d
    } else {
        proof {
            lemma_tdiv_bounds(-(n as int), d as int);
        }
        -((-n) / d)
    }
}

/// Clamp `v` into `[lo, hi]`.
pub fn clamp_i64(v: i64, lo: i64, hi: i64) -> (r: i64)
    requires
        lo <= hi,
    ensures
        r as int == spec_clamp(v as int, lo as int, hi as int),
        lo <= r <= hi,
{
    if v < lo {
        lo
    } else if v > hi {
        hi
    } else {
        v
    }
}

} // verus!
