//! Fixed-point arithmetic for the renderer.
//!
//! A quantity is stored as an `i64` counting millionths: `SCALE` units
//! stand for one map unit or one radian.  Division and float-to-int
//! casts of the rendering formulas are modelled by truncating division
//! (rounding toward zero), made explicit here as [`tdiv`] / [`div_trunc`].

use vstd::prelude::*;
use vstd::arithmetic::div_mod::{
    lemma_div_is_ordered, lemma_div_nonincreasing, lemma_div_pos_is_pos,
    lemma_fundamental_div_mod, lemma_fundamental_div_mod_converse, lemma_mod_multiples_vanish,
};

verus! {

/// Fixed-point units per map unit / radian.
pub const SCALE: i64 = 1_000_000;

/// pi / 2 in fixed-point radians.
pub const HALF_PI_FP: i64 = 1_570_796;

/// pi in fixed-point radians.
pub const PI_FP: i64 = 3_141_593;

/// 2 * pi in fixed-point radians; headings are kept in `[0, TWO_PI_FP)`.
pub const TWO_PI_FP: i64 = 6_283_185;

/// Truncating (round toward zero) division, the semantics of Rust's `/`
/// on machine integers and of a float-to-int cast after a float division.
pub open spec fn tdiv(a: int, b: int) -> int {
    if a >= 0 {
        a / b
    } else {
        -((-a) / b)
    }
}

/// Truncating division on `i64`, exact per [`tdiv`].
pub fn div_trunc(a: i64, b: i64) -> (r: i64)
    requires
        b > 0,
        a > i64::MIN,
    ensures
        r == tdiv(a as int, b as int),
{
    let q = a.checked_div(b);
    proof {
        if a >= 0 {
            lemma_div_pos_is_pos(a as int, b as int);
            lemma_div_nonincreasing(a as int, b as int);
        } else {
            lemma_div_pos_is_pos(-(a as int), b as int);
            lemma_div_nonincreasing(-(a as int), b as int);
        }
    }
    q.unwrap()
}

/// Wraps an angle into `[0, TWO_PI_FP)`; the result is the Euclidean
/// remainder of the angle by a full turn.
pub fn wrap_angle(a: i64) -> (r: i64)
    ensures
        0 <= r < TWO_PI_FP,
        r == (a as int) % (TWO_PI_FP as int),
{
    let rt = a.checked_rem(TWO_PI_FP).unwrap();
    proof {
        let ai = a as int;
        let d = TWO_PI_FP as int;
        if ai < 0 {
            let na = -ai;
            lemma_fundamental_div_mod(na, d);
            let q = na / d;
            let m = na % d;
            if m == 0 {
                lemma_fundamental_div_mod_converse(ai, d, -q, 0);
            } else {
                lemma_fundamental_div_mod_converse(ai, d, -q - 1, d - m);
            }
        }
    }
    if rt < 0 {
        rt + TWO_PI_FP
    } else {
        rt
    }
}

/// `r` is the integer square root of `n`.
pub open spec fn is_sqrt(n: int, r: int) -> bool {
    0 <= r && r * r <= n && n < (r + 1) * (r + 1)
}

/// The integer square root as a mathematical value; [`lemma_sqrt_unique`]
/// lets the witness produced by [`isqrt`] stand for it.
pub open spec fn sqrt_of(n: int) -> int {
    choose|r: int| is_sqrt(n, r)
}

/// Two integer square roots of the same number coincide.
pub proof fn lemma_sqrt_unique(n: int, r1: int, r2: int)
    requires
        is_sqrt(n, r1),
        is_sqrt(n, r2),
    ensures
        r1 == r2,
{
    if r1 < r2 {
        assert((r1 + 1) * (r1 + 1) <= r2 * r2) by (nonlinear_arith)
            requires
                0 <= r1,
                r1 < r2,
        ;
    }
    if r2 < r1 {
        assert((r2 + 1) * (r2 + 1) <= r1 * r1) by (nonlinear_arith)
            requires
                0 <= r2,
                r2 < r1,
        ;
    }
}

/// Any witness of [`is_sqrt`] is the value of [`sqrt_of`].
pub proof fn lemma_sqrt_of_is(n: int, r: int)
    requires
        is_sqrt(n, r),
    ensures
        sqrt_of(n) == r,
{
    assert(is_sqrt(n, choose|q: int| is_sqrt(n, q)));
    lemma_sqrt_unique(n, sqrt_of(n), r);
}

/// Largest input accepted by [`isqrt`]; covers every squared corner
/// distance the renderer can form.
pub const SQRT_MAX_INPUT: u64 = 2_500_000_000_000_000;

/// Integer square root by bisection.
pub fn isqrt(n: u64) -> (r: u64)
    requires
        n <= SQRT_MAX_INPUT,
    ensures
        is_sqrt(n as int, r as int),
        r <= 50_000_000,
{
    let mut lo: u64 = 0;
    let mut hi: u64 = 50_000_000;
    while lo < hi
        invariant
            lo <= hi <= 50_000_000,
            lo * lo <= n,
            n < (hi + 1) * (hi + 1),
        decreases hi - lo,
    {
        let mid = lo + (hi - lo + 1) / 2;
        proof {
            assert(mid * mid <= 50_000_000 * 50_000_000) by (nonlinear_arith)
                requires
                    0 <= mid <= 50_000_000,
            ;
        }
        if mid * mid <= n {
            lo = mid;
        } else {
            hi = mid - 1;
        }
    }
    lo
}

/// Truncating division respects a symmetric bound on the numerator.
pub proof fn lemma_tdiv_abs_bound(a: int, cap: int, b: int)
    requires
        -cap <= a <= cap,
        0 <= cap,
        b > 0,
    ensures
        -(cap / b) <= tdiv(a, b) <= cap / b,
{
    if a >= 0 {
        lemma_div_pos_is_pos(a, b);
        lemma_div_is_ordered(a, cap, b);
        lemma_div_pos_is_pos(cap, b);
    } else {
        lemma_div_pos_is_pos(-a, b);
        lemma_div_is_ordered(-a, cap, b);
        lemma_div_pos_is_pos(cap, b);
    }
}

/// A nonnegative value divided by a positive one stays nonnegative and
/// respects an upper bound on the numerator.
pub proof fn lemma_tdiv_nonneg_bound(a: int, bound: int, b: int)
    requires
        0 <= a <= bound,
        b > 0,
    ensures
        0 <= tdiv(a, b) <= bound / b,
        tdiv(a, b) == a / b,
{
    lemma_div_pos_is_pos(a, b);
    lemma_div_is_ordered(a, bound, b);
}

/// Degree-9 Taylor polynomial of the sine on the first quadrant, evaluated
/// in fixed point with truncating steps and clamped into `[0, SCALE]`.
pub open spec fn taylor_sin_spec(x: int) -> int {
    let x2 = tdiv(x * x, SCALE as int);
    let p3 = tdiv(x * x2, SCALE as int);
    let p5 = tdiv(p3 * x2, SCALE as int);
    let p7 = tdiv(p5 * x2, SCALE as int);
    let p9 = tdiv(p7 * x2, SCALE as int);
    let s = x - tdiv(p3, 6) + tdiv(p5, 120) - tdiv(p7, 5040) + tdiv(p9, 362880);
    if s < 0 {
        0
    } else if s > SCALE {
        SCALE as int
    } else {
        s
    }
}

/// Sine on the first quadrant, exact per [`taylor_sin_spec`].
fn taylor_sin(x: i64) -> (r: i64)
    requires
        0 <= x <= HALF_PI_FP,
    ensures
        r == taylor_sin_spec(x as int),
        0 <= r <= SCALE,
{
    proof {
        assert(0 <= x * x <= 1_570_796 * 1_570_796) by (nonlinear_arith)
            requires
                0 <= x <= 1_570_796,
        ;
    }
    let x2 = div_trunc(x * x, SCALE);
    proof {
        lemma_tdiv_nonneg_bound(x * x, 1_570_796int * 1_570_796, SCALE as int);
        assert(0 <= x * x2 <= 1_570_796 * 2_467_400) by (nonlinear_arith)
            requires
                0 <= x <= 1_570_796,
                0 <= x2 <= 2_467_400,
        ;
    }
    let p3 = div_trunc(x * x2, SCALE);
    proof {
        lemma_tdiv_nonneg_bound(x * x2, 1_570_796int * 2_467_400, SCALE as int);
        assert(0 <= p3 * x2 <= 3_875_782 * 2_467_400) by (nonlinear_arith)
            requires
                0 <= p3 <= 3_875_782,
                0 <= x2 <= 2_467_400,
        ;
    }
    let p5 = div_trunc(p3 * x2, SCALE);
    proof {
        lemma_tdiv_nonneg_bound(p3 * x2, 3_875_782int * 2_467_400, SCALE as int);
        assert(0 <= p5 * x2 <= 9_563_104 * 2_467_400) by (nonlinear_arith)
            requires
                0 <= p5 <= 9_563_104,
                0 <= x2 <= 2_467_400,
        ;
    }
    let p7 = div_trunc(p5 * x2, SCALE);
    proof {
        lemma_tdiv_nonneg_bound(p5 * x2, 9_563_104int * 2_467_400, SCALE as int);
        assert(0 <= p7 * x2 <= 23_596_002 * 2_467_400) by (nonlinear_arith)
            requires
                0 <= p7 <= 23_596_002,
                0 <= x2 <= 2_467_400,
        ;
    }
    let p9 = div_trunc(p7 * x2, SCALE);
    proof {
        lemma_tdiv_nonneg_bound(p7 * x2, 23_596_002int * 2_467_400, SCALE as int);
        lemma_tdiv_nonneg_bound(p3 as int, 3_875_782, 6);
        lemma_tdiv_nonneg_bound(p5 as int, 9_563_104, 120);
        lemma_tdiv_nonneg_bound(p7 as int, 23_596_002, 5040);
        lemma_tdiv_nonneg_bound(p9 as int, 58_220_775, 362880);
    }
    let t3 = div_trunc(p3, 6);
    let t5 = div_trunc(p5, 120);
    let t7 = div_trunc(p7, 5040);
    let t9 = div_trunc(p9, 362880);
    let s = x - t3 + t5 - t7 + t9;
    if s < 0 {
        0
    } else if s > SCALE {
        SCALE
    } else {
        s
    }
}

/// Fixed-point sine of any angle: the angle is wrapped into one turn and
/// folded onto the first quadrant with the sine's symmetries.
pub open spec fn sin_spec(a: int) -> int {
    let w = a % (TWO_PI_FP as int);
    if w <= HALF_PI_FP {
        taylor_sin_spec(w)
    } else if w <= PI_FP {
        taylor_sin_spec(PI_FP - w)
    } else if w <= PI_FP + HALF_PI_FP {
        -taylor_sin_spec(w - PI_FP)
    } else {
        -taylor_sin_spec(TWO_PI_FP - w)
    }
}

/// Fixed-point cosine, the sine shifted a quarter turn.
pub open spec fn cos_spec(a: int) -> int {
    sin_spec(a + HALF_PI_FP)
}

/// Sine of a fixed-point angle, exact per [`sin_spec`].
pub fn sin_fp(a: i64) -> (r: i64)
    ensures
        r == sin_spec(a as int),
        -SCALE <= r <= SCALE,
{
    let w = wrap_angle(a);
    if w <= HALF_PI_FP {
        taylor_sin(w)
    } else if w <= PI_FP {
        taylor_sin(PI_FP - w)
    } else if w <= PI_FP + HALF_PI_FP {
        -taylor_sin(w - PI_FP)
    } else {
        -taylor_sin(TWO_PI_FP - w)
    }
}

/// Cosine of a fixed-point angle, exact per [`cos_spec`].
pub fn cos_fp(a: i64) -> (r: i64)
    ensures
        r == cos_spec(a as int),
        -SCALE <= r <= SCALE,
{
    let w = wrap_angle(a);
    proof {
        let m = TWO_PI_FP as int;
        lemma_fundamental_div_mod(a as int, m);
        lemma_mod_multiples_vanish((a as int) / m, w + HALF_PI_FP, m);
    }
    sin_fp(w + HALF_PI_FP)
}

} // verus!
