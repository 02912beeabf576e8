//! Fixed-point scalars.
//!
//! Every real-valued quantity in this crate is an `i64` holding millionths:
//! the value `SCALE` stands for one whole unit. All scalars are confined to
//! `[-CAP, CAP]`; the arithmetic here saturates at that bound, so it is total
//! and free of overflow.

use vstd::prelude::*;

verus! {

/// One whole unit, in millionths.
pub const SCALE: i64 = 1_000_000;

/// Largest magnitude a scalar may take (one million whole units).
pub const CAP: i64 = 1_000_000_000_000;

/// A scalar is in range when its magnitude is at most `CAP`.
pub open spec fn in_range(x: int) -> bool {
    -(CAP as int) <= x && x <= CAP as int
}

/// The magnitude of a mathematical integer.
pub open spec fn mag(x: int) -> int {
    if x < 0 { -x } else { x }
}

/// Clamping into a closed interval.
pub open spec fn clamp_spec(x: int, lo: int, hi: int) -> int {
    if x < lo { lo } else if x > hi { hi } else { x }
}

/// Clamping into the scalar range `[-CAP, CAP]`.
pub open spec fn cap_spec(x: int) -> int {
    clamp_spec(x, -(CAP as int), CAP as int)
}

/// The product of two scalars, scaled back down by `SCALE`: the magnitudes
/// are multiplied, divided rounding toward zero, and the sign reattached.
pub open spec fn mul_down(a: int, b: int) -> int {
    let m = (mag(a) * mag(b)) / (SCALE as int);
    if (a < 0) != (b < 0) { -m } else { m }
}

/// Saturating fixed-point multiplication.
pub open spec fn fx_mul_spec(a: int, b: int) -> int {
    cap_spec(mul_down(a, b))
}

/// Saturating fixed-point addition.
pub open spec fn fx_add_spec(a: int, b: int) -> int {
    cap_spec(a + b)
}

pub fn clamp_i64(x: i64, lo: i64, hi: i64) -> (r: i64)
    requires
        lo <= hi,
    ensures
        r == clamp_spec(x as int, lo as int, hi as int),
{
    if x < lo {
        lo
    } else if x > hi {
        hi
    } else {
        x
    }
}

pub fn fx_add(a: i64, b: i64) -> (r: i64)
    requires
        in_range(a as int),
        in_range(b as int),
    ensures
        r == fx_add_spec(a as int, b as int),
        in_range(r as int),
{
    let s: i64 = a + b;
    if s < -CAP {
        -CAP
    } else if s > CAP {
        CAP
    } else {
        s
    }
}

pub fn fx_mul(a: i64, b: i64) -> (r: i64)
    requires
        in_range(a as int),
        in_range(b as int),
    ensures
        r == fx_mul_spec(a as int, b as int),
        in_range(r as int),
{
    let neg: bool = (a < 0) != (b < 0);
    let ma: i64 = if a < 0 { -a } else { a };
    let mb: i64 = if b < 0 { -b } else { b };
    assert((ma as int) * (mb as int) <= (CAP as int) * (CAP as int)) by (nonlinear_arith)
        requires
            0 <= (ma as int) && (ma as int) <= CAP as int,
            0 <= (mb as int) && (mb as int) <= CAP as int,
    ;
    let p: u128 = (ma as u128) * (mb as u128);
    let q: u128 = p / (SCALE as u128);
    assert(q <= (CAP as int) * (CAP as int) / (SCALE as int)) by (nonlinear_arith)
        requires
            q == (ma as int) * (mb as int) / (SCALE as int),
            0 <= (ma as int) * (mb as int) <= (CAP as int) * (CAP as int),
    ;
    let qi: i64 = q as i64;
    let r0: i64 = if neg { -qi } else { qi };
    if r0 < -CAP {
        -CAP
    } else if r0 > CAP {
        CAP
    } else {
        r0
    }
}

/// A product scaled down by `SCALE` cannot grow in magnitude when the other
/// factor is at most one unit.
pub proof fn lemma_fx_mul_mag(a: int, b: int)
    requires
        in_range(a),
        mag(b) <= SCALE as int,
    ensures
        mag(fx_mul_spec(a, b)) <= mag(a),
{
    let s = SCALE as int;
    assert(mag(a) * mag(b) <= mag(a) * s) by (nonlinear_arith)
        requires
            0 <= mag(a),
            0 <= mag(b) <= s,
    ;
    assert(mag(a) * mag(b) / s <= mag(a) * s / s) by (nonlinear_arith)
        requires
            0 <= mag(a) * mag(b) <= mag(a) * s,
            s > 0,
    ;
    assert(mag(a) * s / s == mag(a)) by (nonlinear_arith)
        requires
            s > 0,
    ;
    assert(mag(a) * mag(b) / s >= 0) by (nonlinear_arith)
        requires
            0 <= mag(a) * mag(b),
            s > 0,
    ;
}

/// Wrapping a coordinate that has drifted at most one whole period out of
/// `[0, m)` back into that interval.
pub open spec fn wrap1_spec(x: int, m: int) -> int {
    if x < 0 {
        x + m
    } else if x >= m {
        x - m
    } else {
        x
    }
}

pub fn wrap1(x: i64, m: i64) -> (r: i64)
    requires
        0 < m,
        -(m as int) <= x as int,
        (x as int) < 2 * (m as int),
    ensures
        r == wrap1_spec(x as int, m as int),
        0 <= r < m,
{
    if x < 0 {
        x + m
    } else if x >= m {
        x - m
    } else {
        x
    }
}

/// Half of one whole unit.
pub const HALF_SCALE: i64 = 500_000;

/// The integer square root, at the spec level: the unique non-negative `r`
/// with `r * r <= n < (r + 1) * (r + 1)`.
pub open spec fn sqrt_floor(n: int) -> int {
    choose|r: int| 0 <= r && #[trigger] (r * r) <= n && n < (r + 1) * (r + 1)
}

/// A witness pins `sqrt_floor` down.
pub proof fn lemma_sqrt_floor_is(n: int, r: int)
    requires
        0 <= r,
        r * r <= n,
        n < (r + 1) * (r + 1),
    ensures
        sqrt_floor(n) == r,
{
    assert(exists|x: int| 0 <= x && #[trigger] (x * x) <= n && n < (x + 1) * (x + 1)) by {
        assert(0 <= r && r * r <= n && n < (r + 1) * (r + 1));
    }
    let r2 = sqrt_floor(n);
    assert(0 <= r2 && r2 * r2 <= n && n < (r2 + 1) * (r2 + 1));
    if r2 < r {
        assert((r2 + 1) * (r2 + 1) <= r * r) by (nonlinear_arith)
            requires
                0 <= r2,
                r2 + 1 <= r,
        ;
    }
    if r < r2 {
        assert((r + 1) * (r + 1) <= r2 * r2) by (nonlinear_arith)
            requires
                0 <= r,
                r + 1 <= r2,
        ;
    }
}

/// Every non-negative integer has a floor square root.
pub proof fn lemma_sqrt_floor_props(n: int)
    requires
        0 <= n,
    ensures
        0 <= sqrt_floor(n),
        sqrt_floor(n) * sqrt_floor(n) <= n,
        n < (sqrt_floor(n) + 1) * (sqrt_floor(n) + 1),
    decreases n,
{
    if n == 0 {
        lemma_sqrt_floor_is(0, 0);
    } else {
        lemma_sqrt_floor_props(n - 1);
        let r = sqrt_floor(n - 1);
        if n < (r + 1) * (r + 1) {
            lemma_sqrt_floor_is(n, r);
        } else {
            assert(n == (r + 1) * (r + 1));
            assert((r + 1) * (r + 1) < (r + 2) * (r + 2)) by (nonlinear_arith)
                requires
                    0 <= r,
            ;
            lemma_sqrt_floor_is(n, r + 1);
        }
    }
}

/// The integer square root: the largest `r` with `r * r <= n`.
pub fn isqrt(n: u64) -> (r: u64)
    ensures
        (r as int) * (r as int) <= n as int,
        (n as int) < (r as int + 1) * (r as int + 1),
        r < 4_294_967_296,
{
    let mut lo: u64 = 0;
    let mut hi: u64 = 4_294_967_296;
    assert((hi as int) * (hi as int) > u64::MAX as int) by (nonlinear_arith)
        requires
            hi == 4_294_967_296u64,
    ;
    while hi - lo > 1
        invariant
            lo < hi,
            hi <= 4_294_967_296,
            (lo as int) * (lo as int) <= n as int,
            (n as int) < (hi as int) * (hi as int),
        decreases hi - lo,
    {
        let mid: u64 = lo + (hi - lo) / 2;
        assert((mid as int) * (mid as int) < (4_294_967_296int) * (4_294_967_296int))
            by (nonlinear_arith)
            requires
                0 <= (mid as int) && (mid as int) < 4_294_967_296int,
        ;
        if mid * mid <= n {
            lo = mid;
        } else {
            hi = mid;
        }
    }
    lo
}

} // verus!
