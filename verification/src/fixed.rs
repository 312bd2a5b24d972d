//! Fixed-point scalars.
//!
//! A scalar value `v` stands for the real number `v / SCALE`; heights,
//! wetness values, colour channels and interpolation weights are all carried
//! this way.  Colour channels and weights live in `[0, SCALE]` and use `u64`;
//! signed quantities such as heights use `i64`.

use vstd::prelude::*;

verus! {

/// Number of fixed-point steps in one unit: a scalar `v` means `v / SCALE`.
pub const SCALE: u64 = 1_000_000;

/// Largest magnitude accepted for a height or another signed scalar,
/// chosen so that every intermediate product in the pipeline fits in 64 bits.
pub const SCALAR_LIMIT: i64 = 1_000_000_000_000;

/// Linear interpolation between `a` and `b` with the rational weight
/// `p / q`, rounded toward zero.
pub open spec fn lerp_spec(a: int, b: int, p: int, q: int) -> int
    recommends
        q >= 1,
{
    (a * (q - p) + b * p) / q
}

/// Interpolating with weight zero returns the left endpoint exactly,
/// truncation notwithstanding.
pub proof fn lemma_lerp_at_zero(a: int, b: int, q: int)
    requires
        q >= 1,
        a >= 0,
    ensures
        lerp_spec(a, b, 0, q) == a,
{
    assert((a * (q - 0) + b * 0) == a * q) by (nonlinear_arith);
    assert((a * q) / q == a) by (nonlinear_arith)
        requires q >= 1;
}

/// Interpolating with weight one returns the right endpoint exactly.
pub proof fn lemma_lerp_at_one(a: int, b: int, q: int)
    requires
        q >= 1,
        b >= 0,
    ensures
        lerp_spec(a, b, q, q) == b,
{
    assert((a * (q - q) + b * q) == b * q) by (nonlinear_arith);
    assert((b * q) / q == b) by (nonlinear_arith)
        requires q >= 1;
}

pub proof fn lemma_lerp_bounds(a: int, b: int, p: int, q: int, m: int)
    requires
        q >= 1,
        0 <= p <= q,
        0 <= a <= m,
        0 <= b <= m,
    ensures
        0 <= lerp_spec(a, b, p, q) <= m,
{
    assert(a * (q - p) + b * p <= m * q) by (nonlinear_arith)
        requires 0 <= a <= m && 0 <= b <= m && 0 <= p <= q;
    assert(a * (q - p) + b * p >= 0) by (nonlinear_arith)
        requires a >= 0 && b >= 0 && 0 <= p <= q;
    assert((m * q) / q == m) by (nonlinear_arith)
        requires q >= 1;
    assert(lerp_spec(a, b, p, q) <= (m * q) / q) by (nonlinear_arith)
        requires q >= 1 && 0 <= a * (q - p) + b * p <= m * q;
}

/// Interpolate between the channel values `a` and `b` with weight `p / q`.
pub fn lerp(a: u64, b: u64, p: u64, q: u64) -> (r: u64)
    requires
        1 <= q <= 1_000_000_000_000,
        p <= q,
        a <= SCALE,
        b <= SCALE,
    ensures
        r == lerp_spec(a as int, b as int, p as int, q as int),
        r <= SCALE,
{
    proof {
        lemma_lerp_bounds(a as int, b as int, p as int, q as int, SCALE as int);
        assert(a * (q - p) + b * p <= SCALE * q) by (nonlinear_arith)
            requires a <= SCALE && b <= SCALE && p <= q;
        assert(SCALE * q <= u64::MAX) by (nonlinear_arith)
            requires q <= 1_000_000_000_000;
    }
    (a * (q - p) + b * p) / q
}

/// The quintic smooth-step weight between the thresholds `left` and `right`:
/// 0 at or below `left`, `SCALE` at or beyond `right`, and in between the
/// polynomial `10 t^3 - 15 t^4 + 6 t^5` of the normalized offset `t`,
/// evaluated in fixed point (each product is divided back by `SCALE`, and
/// the result is clamped into the unit range).
pub open spec fn smoothstep_spec(x: i64, left: i64, right: i64) -> int
    recommends
        left < right,
{
    if x <= left {
        0
    } else if x >= right {
        SCALE as int
    } else {
        let t = (x - left) * SCALE / (right - left);
        let t2 = t * t / (SCALE as int);
        let t3 = t2 * t / (SCALE as int);
        let s = t3 * (10 * SCALE + 6 * t2 - 15 * t) / (SCALE as int);
        if s > SCALE {
            SCALE as int
        } else {
            s
        }
    }
}

proof fn lemma_div_scale_bound(num: int, den: int, m: int)
    by (nonlinear_arith)
    requires
        den >= 1,
        0 <= num <= den * m,
        m >= 0,
    ensures
        0 <= num / den <= m,
{
}

/// The smooth-step interior weight polynomial never goes negative:
/// `10 + 6 t^2 - 15 t` is positive on the unit interval.
proof fn lemma_smooth_inner_nonneg(t: int, t2: int)
    requires
        0 <= t <= SCALE,
        t2 == t * t / (SCALE as int),
    ensures
        0 <= 10 * SCALE + 6 * t2 - 15 * t,
        t2 <= SCALE,
{
    let s = SCALE as int;
    assert(t * t <= s * s) by (nonlinear_arith)
        requires 0 <= t <= s;
    lemma_div_scale_bound(t * t, s, s);
    // 24 (6 t^2 - 15 t s + 10 s^2) = (12 t - 15 s)^2 + 15 s^2, so the
    // quadratic keeps a wide positive margin.
    assert(24 * (6 * (t * t) - 15 * t * s + 10 * s * s) == (12 * t - 15 * s) * (12 * t - 15 * s)
        + 15 * (s * s)) by (nonlinear_arith);
    assert((12 * t - 15 * s) * (12 * t - 15 * s) >= 0) by (nonlinear_arith);
    assert(24 * (6 * (t * t) - 15 * t * s + 10 * s * s) >= 15 * (s * s));
    // Relate the floored t2 to the exact square.
    assert(t * t == s * (t * t / s) + (t * t) % s) by {
        vstd::arithmetic::div_mod::lemma_fundamental_div_mod(t * t, s);
    }
    assert(0 <= (t * t) % s < s) by (nonlinear_arith)
        requires s >= 1 && t * t >= 0;
    assert(s * (10 * s + 6 * t2 - 15 * t) == 10 * s * s + 6 * (s * t2) - 15 * t * s)
        by (nonlinear_arith);
    assert(6 * (s * t2) == 6 * (t * t) - 6 * ((t * t) % s));
    assert(s * (10 * s + 6 * t2 - 15 * t) >= 6 * s - 6 * ((t * t) % s)) by {
        assert(10 * s * s + 6 * (t * t) - 15 * t * s >= 6 * s) by (nonlinear_arith)
            requires
                s == SCALE as int,
                24 * (6 * (t * t) - 15 * t * s + 10 * s * s) >= 15 * (s * s),
        ;
    }
    assert(s * (10 * s + 6 * t2 - 15 * t) > 0);
    assert(10 * s + 6 * t2 - 15 * t > 0) by (nonlinear_arith)
        requires s > 0 && s * (10 * s + 6 * t2 - 15 * t) > 0;
}

/// Smooth interpolation weight between two thresholds, as a fixed-point
/// value in `[0, SCALE]`.
pub fn smoothstep(x: i64, left: i64, right: i64) -> (r: u64)
    requires
        left < right,
        -SCALAR_LIMIT <= x <= SCALAR_LIMIT,
        -SCALAR_LIMIT <= left,
        right <= SCALAR_LIMIT,
    ensures
        r == smoothstep_spec(x, left, right),
        r <= SCALE,
{
    if x <= left {
        0
    } else if x >= right {
        SCALE
    } else {
        let dx = (x - left) as u64;
        let w = (right - left) as u64;
        proof {
            assert(dx * SCALE <= w * SCALE) by (nonlinear_arith)
                requires dx <= w;
            assert(w * SCALE <= 2_000_000_000_000 * 1_000_000) by (nonlinear_arith)
                requires w <= 2_000_000_000_000;
            lemma_div_scale_bound(dx as int * SCALE as int, w as int, SCALE as int);
            assert(dx as int * (SCALE as int) <= w as int * (SCALE as int)) by (nonlinear_arith)
                requires dx <= w;
        }
        let t = dx * SCALE / w;
        proof {
            assert(t * t <= SCALE * SCALE) by (nonlinear_arith)
                requires t <= SCALE;
            lemma_div_scale_bound(t as int * t as int, SCALE as int, SCALE as int);
        }
        let t2 = t * t / SCALE;
        proof {
            assert(t2 * t <= SCALE * SCALE) by (nonlinear_arith)
                requires t2 <= SCALE && t <= SCALE;
            lemma_div_scale_bound(t2 as int * t as int, SCALE as int, SCALE as int);
            lemma_smooth_inner_nonneg(t as int, t2 as int);
        }
        let t3 = t2 * t / SCALE;
        let inner = 10 * SCALE + 6 * t2 - 15 * t;
        proof {
            assert(t3 * inner <= SCALE * (16 * SCALE)) by (nonlinear_arith)
                requires t3 <= SCALE && inner <= 16 * SCALE;
            lemma_div_scale_bound(t3 as int * inner as int, SCALE as int, 16 * SCALE as int);
        }
        let s = t3 * inner / SCALE;
        if s > SCALE {
            SCALE
        } else {
            s
        }
    }
}

} // verus!
