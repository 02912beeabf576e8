//! Angles and directions on the unit torus.
//!
//! An angle is an `i64` holding millionths of a full turn, kept in
//! `[0, TURN)`. The sine and cosine here are the exact integer rational
//! approximation the whole crate computes with (one quadratic ratio per
//! half-turn), and `dia_angle` is the matching direction measure of a
//! displacement: piecewise-linear around the circle, exact on the axes, and
//! monotone within each quadrant.

use vstd::prelude::*;
use crate::fx::SCALE;

verus! {

/// One full turn, in millionths.
pub const TURN: i64 = 1_000_000;

/// Half a turn.
pub const HALF_TURN: i64 = 500_000;

/// A quarter turn.
pub const QUARTER: i64 = 250_000;

/// The signed difference `a - b`, wrapped into `[-HALF_TURN, HALF_TURN)`.
pub open spec fn rel_angle_spec(a: int, b: int) -> int {
    let d = a - b;
    if d < -(HALF_TURN as int) {
        d + TURN as int
    } else if d >= HALF_TURN as int {
        d - TURN as int
    } else {
        d
    }
}

pub fn rel_angle(a: i64, b: i64) -> (r: i64)
    requires
        0 <= a < TURN,
        0 <= b < TURN,
    ensures
        r == rel_angle_spec(a as int, b as int),
        -HALF_TURN <= r < HALF_TURN,
{
    let d: i64 = a - b;
    if d < -HALF_TURN {
        d + TURN
    } else if d >= HALF_TURN {
        d - TURN
    } else {
        d
    }
}

/// The sine of `h` half-turn units on `[0, HALF_TURN]`, scaled by `SCALE`:
/// the quadratic rational `16 p / (5 H^2 - 4 p)` with `p = h (H - h)`.
pub open spec fn sin_half_spec(h: int) -> int {
    let hh = HALF_TURN as int;
    let p = h * (hh - h);
    (16 * p * (SCALE as int)) / (5 * hh * hh - 4 * p)
}

/// The sine of an angle in `[0, TURN)`, scaled by `SCALE`.
pub open spec fn sin_spec(a: int) -> int {
    if a < HALF_TURN as int {
        sin_half_spec(a)
    } else {
        -sin_half_spec(a - HALF_TURN as int)
    }
}

/// The cosine: the sine a quarter turn ahead.
pub open spec fn cos_spec(a: int) -> int {
    if a + (QUARTER as int) < TURN as int {
        sin_spec(a + QUARTER as int)
    } else {
        sin_spec(a + QUARTER as int - TURN as int)
    }
}

proof fn lemma_sin_half_bounds(h: int)
    requires
        0 <= h <= HALF_TURN as int,
    ensures
        0 <= sin_half_spec(h) <= SCALE as int,
{
    let hh = HALF_TURN as int;
    let s = SCALE as int;
    let p = h * (hh - h);
    assert(0 <= p && 4 * p <= hh * hh) by (nonlinear_arith)
        requires
            0 <= h <= hh,
            p == h * (hh - h),
    ;
    assert(5 * hh * hh - 4 * p >= 4 * hh * hh) by (nonlinear_arith)
        requires
            4 * p <= hh * hh,
    ;
    assert(16 * p * s >= 0) by (nonlinear_arith)
        requires
            p >= 0,
            s > 0,
    ;
    assert((16 * p * s) / (5 * hh * hh - 4 * p) >= 0) by (nonlinear_arith)
        requires
            16 * p * s >= 0,
            5 * hh * hh - 4 * p > 0,
    ;
    assert(16 * p * s <= (5 * hh * hh - 4 * p) * s) by (nonlinear_arith)
        requires
            4 * p <= hh * hh,
            s > 0,
            p >= 0,
    ;
    assert((16 * p * s) / (5 * hh * hh - 4 * p) <= s) by (nonlinear_arith)
        requires
            16 * p * s <= (5 * hh * hh - 4 * p) * s,
            5 * hh * hh - 4 * p > 0,
    ;
}

/// The sine and cosine stay within one unit.
pub proof fn lemma_sin_cos_bounds(a: int)
    requires
        0 <= a < TURN as int,
    ensures
        -(SCALE as int) <= sin_spec(a) <= SCALE as int,
        -(SCALE as int) <= cos_spec(a) <= SCALE as int,
{
    if a < HALF_TURN as int {
        lemma_sin_half_bounds(a);
    } else {
        lemma_sin_half_bounds(a - HALF_TURN as int);
    }
    let q = if a + (QUARTER as int) < TURN as int {
        a + QUARTER as int
    } else {
        a + QUARTER as int - TURN as int
    };
    if q < HALF_TURN as int {
        lemma_sin_half_bounds(q);
    } else {
        lemma_sin_half_bounds(q - HALF_TURN as int);
    }
}

fn sin_half(h: i64) -> (r: i64)
    requires
        0 <= h <= HALF_TURN,
    ensures
        r == sin_half_spec(h as int),
        0 <= r <= SCALE,
{
    proof {
        lemma_sin_half_bounds(h as int);
        assert((h as int) * ((HALF_TURN - h) as int) <= (HALF_TURN as int) * (HALF_TURN as int)
            && 0 <= (h as int) * ((HALF_TURN - h) as int)) by (nonlinear_arith)
            requires
                0 <= h as int,
                h as int <= HALF_TURN as int,
        ;
    }
    let hh: u128 = HALF_TURN as u128;
    let p: u128 = (h as u128) * ((HALF_TURN - h) as u128);
    let num: u128 = 16 * p * (SCALE as u128);
    let den: u128 = 5 * hh * hh - 4 * p;
    proof {
        assert(4 * (p as int) <= (HALF_TURN as int) * (HALF_TURN as int)) by (nonlinear_arith)
            requires
                p as int == (h as int) * ((HALF_TURN - h) as int),
                0 <= h as int,
                h as int <= HALF_TURN as int,
        ;
    }
    let r: u128 = num / den;
    r as i64
}

/// The sine, as the crate computes it.
pub fn sin_fx(a: i64) -> (r: i64)
    requires
        0 <= a < TURN,
    ensures
        r == sin_spec(a as int),
        -SCALE <= r <= SCALE,
{
    proof {
        lemma_sin_cos_bounds(a as int);
    }
    if a < HALF_TURN {
        sin_half(a)
    } else {
        let v: i64 = sin_half(a - HALF_TURN);
        -v
    }
}

/// The cosine, as the crate computes it.
pub fn cos_fx(a: i64) -> (r: i64)
    requires
        0 <= a < TURN,
    ensures
        r == cos_spec(a as int),
        -SCALE <= r <= SCALE,
{
    let q: i64 = if a + QUARTER < TURN {
        a + QUARTER
    } else {
        a + QUARTER - TURN
    };
    proof {
        lemma_sin_cos_bounds(a as int);
    }
    sin_fx(q)
}

/// The direction of the displacement `(dx, dy)`, in turn units: a
/// piecewise-linear measure that is `0` along the positive x axis and grows
/// by a quarter turn per quadrant, counterclockwise.
pub open spec fn dia_angle_spec(dx: int, dy: int) -> int {
    let q = QUARTER as int;
    if dx == 0 && dy == 0 {
        0
    } else if dx > 0 && dy >= 0 {
        (q * dy) / (dx + dy)
    } else if dx <= 0 && dy > 0 {
        q + (q * (-dx)) / ((-dx) + dy)
    } else if dx < 0 && dy <= 0 {
        2 * q + (q * (-dy)) / ((-dx) + (-dy))
    } else {
        3 * q + (q * dx) / (dx + (-dy))
    }
}

proof fn lemma_div_ratio_bounds(q: int, a: int, b: int)
    requires
        q > 0,
        a >= 0,
        b >= 1,
        a <= a + b,
    ensures
        0 <= (q * a) / (a + b) < q,
{
    assert(q * a >= 0) by (nonlinear_arith)
        requires
            q > 0,
            a >= 0,
    ;
    assert((q * a) / (a + b) >= 0) by (nonlinear_arith)
        requires
            q * a >= 0,
            a + b >= 1,
    ;
    assert(q * a < q * (a + b)) by (nonlinear_arith)
        requires
            q > 0,
            b >= 1,
    ;
    assert((q * a) / (a + b) < q) by (nonlinear_arith)
        requires
            q * a < q * (a + b),
            a + b >= 1,
            q * a >= 0,
    ;
}

/// The direction measure always lands in `[0, TURN)`.
pub proof fn lemma_dia_angle_range(dx: int, dy: int)
    ensures
        0 <= dia_angle_spec(dx, dy) < TURN as int,
{
    let q = QUARTER as int;
    if dx == 0 && dy == 0 {
    } else if dx > 0 && dy >= 0 {
        lemma_div_ratio_bounds(q, dy, dx);
    } else if dx <= 0 && dy > 0 {
        lemma_div_ratio_bounds(q, -dx, dy);
    } else if dx < 0 && dy <= 0 {
        lemma_div_ratio_bounds(q, -dy, -dx);
    } else {
        lemma_div_ratio_bounds(q, dx, -dy);
    }
}

/// The direction of a displacement, both coordinates at most half the world
/// wide in magnitude.
pub fn dia_angle(dx: i64, dy: i64) -> (r: i64)
    requires
        -HALF_TURN <= dx <= HALF_TURN,
        -HALF_TURN <= dy <= HALF_TURN,
    ensures
        r == dia_angle_spec(dx as int, dy as int),
        0 <= r < TURN,
{
    proof {
        lemma_dia_angle_range(dx as int, dy as int);
    }
    if dx == 0 && dy == 0 {
        0
    } else if dx > 0 && dy >= 0 {
        (QUARTER * dy) / (dx + dy)
    } else if dx <= 0 && dy > 0 {
        QUARTER + (QUARTER * (-dx)) / ((-dx) + dy)
    } else if dx < 0 && dy <= 0 {
        2 * QUARTER + (QUARTER * (-dy)) / ((-dx) + (-dy))
    } else {
        3 * QUARTER + (QUARTER * dx) / (dx + (-dy))
    }
}

} // verus!
