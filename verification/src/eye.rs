//! The directional vision sensor.
//!
//! An eye discretizes nearby food into a fixed-length activation vector:
//! one cell per slice of the field of view. Each food within range and
//! aperture adds `(range - distance) / range` (in fixed point) to the cell
//! its direction maps to; several foods on one cell sum without
//! normalization, a deliberate saturation.

use vstd::prelude::*;
use crate::fx::{SCALE, in_range, sqrt_floor, lemma_sqrt_floor_is, HALF_SCALE, isqrt};
use crate::geom::{TURN, rel_angle_spec, rel_angle, dia_angle_spec, dia_angle};
use crate::food::{Food, food_wf};
use crate::chromosome::chrom_wf;

verus! {

#[derive(Debug)]
pub struct Eye {
    /// Furthest distance at which food is sensed, in world units.
    pub fov_range: i64,
    /// Angular aperture of the field of view, in turn units.
    pub fov_angle: i64,
    /// Number of cells the aperture is divided into.
    pub cells: usize,
}

/// An eye's configuration is sound: positive range within the world,
/// positive aperture of at most a full turn, and a moderate cell count.
pub open spec fn eye_wf(e: Eye) -> bool {
    &&& 0 < e.fov_range <= SCALE
    &&& 0 < e.fov_angle <= TURN
    &&& 1 <= e.cells <= 1000
}

impl Eye {
    pub fn new(fov_range: i64, fov_angle: i64, cells: usize) -> (r: Self)
        requires
            0 < fov_range <= SCALE,
            0 < fov_angle <= TURN,
            1 <= cells <= 1000,
        ensures
            r.fov_range == fov_range,
            r.fov_angle == fov_angle,
            r.cells == cells,
            eye_wf(r),
    {
        Eye { fov_range, fov_angle, cells }
    }

    pub fn cells(&self) -> (r: usize)
        ensures
            r == self.cells,
    {
        self.cells
    }
}

/// The shortest displacement from coordinate `a` to coordinate `f` on the
/// unit torus: the image across the nearer edge when that is closer.
pub open spec fn tor_delta_spec(a: int, f: int) -> int {
    let d = f - a;
    if d > HALF_SCALE as int {
        d - SCALE as int
    } else if d < -(HALF_SCALE as int) {
        d + SCALE as int
    } else {
        d
    }
}

pub fn tor_delta(a: i64, f: i64) -> (r: i64)
    requires
        0 <= a < SCALE,
        0 <= f < SCALE,
    ensures
        r == tor_delta_spec(a as int, f as int),
        -HALF_SCALE <= r <= HALF_SCALE,
{
    let d: i64 = f - a;
    if d > HALF_SCALE {
        d - SCALE
    } else if d < -HALF_SCALE {
        d + SCALE
    } else {
        d
    }
}

/// Where one food lands in the eye: `None` when it is out of range or
/// outside the aperture, otherwise the cell index it maps to and the amount
/// it contributes — `(range - distance) / range`, scaled.
pub open spec fn food_cell(e: Eye, ax: int, ay: int, rot: int, f: Food) -> Option<(int, int)> {
    let dx = tor_delta_spec(ax, f.x as int);
    let dy = tor_delta_spec(ay, f.y as int);
    let dist = sqrt_floor(dx * dx + dy * dy);
    if dist > e.fov_range as int {
        None
    } else {
        let rel = rel_angle_spec(dia_angle_spec(dx, dy), rot);
        let half_ap = (e.fov_angle as int) / 2;
        if rel < -half_ap || rel > half_ap {
            None
        } else {
            let raw = ((rel + half_ap) * (e.cells as int)) / (e.fov_angle as int);
            let cell = if raw >= e.cells as int {
                e.cells as int - 1
            } else {
                raw
            };
            let amount = ((e.fov_range as int - dist) * (SCALE as int)) / (e.fov_range as int);
            Some((cell, amount))
        }
    }
}

/// An activation vector of all-dark cells.
pub open spec fn zero_cells(n: nat) -> Seq<int> {
    Seq::new(n, |i: int| 0int)
}

/// The activation vector always has one entry per cell.
pub proof fn lemma_vision_acc_len(e: Eye, ax: int, ay: int, rot: int, foods: Seq<Food>, k: int)
    requires
        eye_wf(e),
        0 <= ax < SCALE as int,
        0 <= ay < SCALE as int,
        k <= foods.len(),
        forall|i: int| 0 <= i < foods.len() ==> food_wf(#[trigger] foods[i]),
    ensures
        vision_acc(e, ax, ay, rot, foods, k).len() == e.cells,
    decreases k,
{
    if k > 0 {
        lemma_food_cell_ok(e, ax, ay, rot, foods[k - 1]);
    }
    if k <= 0 {
        assert(vision_acc(e, ax, ay, rot, foods, k) == zero_cells(e.cells as nat));
        assert(zero_cells(e.cells as nat).len() == e.cells as nat);
    } else {
        lemma_vision_acc_len(e, ax, ay, rot, foods, k - 1);
        let prev = vision_acc(e, ax, ay, rot, foods, k - 1);
        match food_cell(e, ax, ay, rot, foods[k - 1]) {
            None => {
                assert(vision_acc(e, ax, ay, rot, foods, k) == prev);
            },
            Some(ca) => {
                assert(vision_acc(e, ax, ay, rot, foods, k) == prev.update(
                    ca.0,
                    prev[ca.0] + ca.1,
                ));
                assert(prev.update(ca.0, prev[ca.0] + ca.1).len() == prev.len());
            },
        }
    }
}

/// The activation vector after the first `k` foods have been sensed.
pub open spec fn vision_acc(e: Eye, ax: int, ay: int, rot: int, foods: Seq<Food>, k: int) -> Seq<
    int,
>
    decreases k,
{
    if k <= 0 {
        zero_cells(e.cells as nat)
    } else {
        let prev = vision_acc(e, ax, ay, rot, foods, k - 1);
        match food_cell(e, ax, ay, rot, foods[k - 1]) {
            None => prev,
            Some(ca) => prev.update(ca.0, prev[ca.0] + ca.1),
        }
    }
}

/// When a food is seen at all, its cell index is a real cell and its
/// contribution lies in `[0, SCALE]`; strictly within range it is positive.
pub proof fn lemma_food_cell_ok(e: Eye, ax: int, ay: int, rot: int, f: Food)
    requires
        eye_wf(e),
        food_wf(f),
        0 <= ax < SCALE as int,
        0 <= ay < SCALE as int,
    ensures
        match food_cell(e, ax, ay, rot, f) {
            None => true,
            Some(ca) => {
                &&& 0 <= ca.0 < e.cells as int
                &&& 0 <= ca.1 <= SCALE as int
                &&& {
                    let dx = tor_delta_spec(ax, f.x as int);
                    let dy = tor_delta_spec(ay, f.y as int);
                    sqrt_floor(dx * dx + dy * dy) < e.fov_range as int ==> ca.1 >= 1
                }
            },
        },
{
    let dx = tor_delta_spec(ax, f.x as int);
    let dy = tor_delta_spec(ay, f.y as int);
    let n = dx * dx + dy * dy;
    assert(n >= 0) by (nonlinear_arith)
        requires
            n == dx * dx + dy * dy,
    ;
    crate::fx::lemma_sqrt_floor_props(n);
    let dist = sqrt_floor(n);
    if dist <= e.fov_range as int {
        let rel = rel_angle_spec(dia_angle_spec(dx, dy), rot);
        let half_ap = (e.fov_angle as int) / 2;
        if -half_ap <= rel && rel <= half_ap {
            let c = e.cells as int;
            let fa = e.fov_angle as int;
            let raw = ((rel + half_ap) * c) / fa;
            assert(0 <= raw) by (nonlinear_arith)
                requires
                    0 <= rel + half_ap,
                    c >= 1,
                    fa >= 1,
                    raw == ((rel + half_ap) * c) / fa,
            ;
            let range = e.fov_range as int;
            let amount = ((range - dist) * (SCALE as int)) / range;
            assert(0 <= amount && amount <= SCALE as int) by (nonlinear_arith)
                requires
                    0 <= range - dist <= range,
                    0 < range <= SCALE as int,
                    amount == ((range - dist) * (SCALE as int)) / range,
            ;
            if dist < range {
                assert(amount >= 1) by (nonlinear_arith)
                    requires
                        1 <= range - dist,
                        0 < range <= SCALE as int,
                        amount == ((range - dist) * (SCALE as int)) / range,
                ;
            }
        }
    }
}

/// A single food fills at most one cell: seen, exactly its cell holds
/// exactly its contribution; unseen, every cell stays dark.
pub proof fn lemma_single_food_vision(e: Eye, ax: int, ay: int, rot: int, f: Food)
    requires
        eye_wf(e),
        food_wf(f),
        0 <= ax < SCALE as int,
        0 <= ay < SCALE as int,
    ensures
        match food_cell(e, ax, ay, rot, f) {
            None => forall|j: int|
                0 <= j < e.cells as int ==> vision_acc(e, ax, ay, rot, seq![f], 1)[j] == 0,
            Some(ca) => {
                &&& vision_acc(e, ax, ay, rot, seq![f], 1)[ca.0] == ca.1
                &&& forall|j: int|
                    0 <= j < e.cells as int && j != ca.0 ==> vision_acc(
                        e,
                        ax,
                        ay,
                        rot,
                        seq![f],
                        1,
                    )[j] == 0
            },
        },
{
    lemma_food_cell_ok(e, ax, ay, rot, f);
    assert(seq![f][0] == f);
    let v0 = vision_acc(e, ax, ay, rot, seq![f], 0);
    let v1 = vision_acc(e, ax, ay, rot, seq![f], 1);
    assert(v0 == zero_cells(e.cells as nat));
    assert(v0.len() == e.cells as int);
    assert(forall|j: int| 0 <= j < e.cells as int ==> #[trigger] v0[j] == 0);
    match food_cell(e, ax, ay, rot, f) {
        None => {
            assert(v1 == v0);
        },
        Some(ca) => {
            assert(v1 == v0.update(ca.0, v0[ca.0] + ca.1));
            assert(0 <= ca.0 < e.cells as int);
            assert(v1[ca.0] == ca.1);
            assert forall|j: int| 0 <= j < e.cells as int && j != ca.0 implies v1[j] == 0 by {
                assert(v1[j] == v0[j]);
            }
        },
    }
}

/// The whole activation vector an eye senses, as the machine word vector
/// the rest of the crate consumes.
pub open spec fn vision_of(e: Eye, ax: int, ay: int, rot: int, foods: Seq<Food>) -> Seq<i64> {
    Seq::new(
        e.cells as nat,
        |j: int| vision_acc(e, ax, ay, rot, foods, foods.len() as int)[j] as i64,
    )
}

/// A food straight ahead — its displacement's direction measure equals the
/// heading — and strictly within range is always seen, lands in the central
/// cell of the aperture, and contributes positively.
pub proof fn lemma_food_straight_ahead(e: Eye, ax: int, ay: int, rot: int, f: Food)
    requires
        eye_wf(e),
        food_wf(f),
        0 <= ax < SCALE as int,
        0 <= ay < SCALE as int,
        dia_angle_spec(tor_delta_spec(ax, f.x as int), tor_delta_spec(ay, f.y as int)) == rot,
        sqrt_floor(
            tor_delta_spec(ax, f.x as int) * tor_delta_spec(ax, f.x as int) + tor_delta_spec(
                ay,
                f.y as int,
            ) * tor_delta_spec(ay, f.y as int),
        ) < e.fov_range as int,
    ensures
        match food_cell(e, ax, ay, rot, f) {
            None => false,
            Some(ca) => {
                &&& ca.0 == (((e.fov_angle as int) / 2) * (e.cells as int)) / (e.fov_angle as int)
                &&& ca.1 >= 1
            },
        },
{
    lemma_food_cell_ok(e, ax, ay, rot, f);
    let dx = tor_delta_spec(ax, f.x as int);
    let dy = tor_delta_spec(ay, f.y as int);
    let half_ap = (e.fov_angle as int) / 2;
    assert(rel_angle_spec(dia_angle_spec(dx, dy), rot) == 0);
    let raw = ((0 + half_ap) * (e.cells as int)) / (e.fov_angle as int);
    assert(raw < e.cells as int) by (nonlinear_arith)
        requires
            raw == (half_ap * (e.cells as int)) / (e.fov_angle as int),
            0 <= half_ap,
            2 * half_ap <= e.fov_angle as int,
            1 <= e.cells as int,
            0 < e.fov_angle as int,
    ;
}

impl Eye {
    /// Senses the given foods from a position and heading: the activation
    /// vector accumulated food by food, in order.
    pub fn process_vision(&self, x: i64, y: i64, rotation: i64, foods: &Vec<Food>) -> (r: Vec<
        i64,
    >)
        requires
            eye_wf(*self),
            0 <= x < SCALE,
            0 <= y < SCALE,
            0 <= rotation < TURN,
            forall|i: int| 0 <= i < foods@.len() ==> food_wf(#[trigger] foods@[i]),
            foods@.len() <= 1_000_000,
        ensures
            r@.len() == self.cells,
            forall|j: int|
                0 <= j < r@.len() ==> #[trigger] r@[j] as int == vision_acc(
                    *self,
                    x as int,
                    y as int,
                    rotation as int,
                    foods@,
                    foods@.len() as int,
                )[j],
            r@ == vision_of(*self, x as int, y as int, rotation as int, foods@),
            chrom_wf(r@),
    {
        let cells: usize = self.cells;
        let mut out: Vec<i64> = Vec::new();
        for i in 0..cells
            invariant
                out@.len() == i,
                forall|j: int| 0 <= j < i ==> #[trigger] out@[j] == 0,
        {
            out.push(0i64);
        }
        let nf: usize = foods.len();
        for fi in 0..nf
            invariant
                eye_wf(*self),
                cells == self.cells,
                0 <= x < SCALE,
                0 <= y < SCALE,
                0 <= rotation < TURN,
                nf == foods@.len(),
                nf <= 1_000_000,
                forall|i: int| 0 <= i < foods@.len() ==> food_wf(#[trigger] foods@[i]),
                out@.len() == cells,
                forall|j: int|
                    0 <= j < out@.len() ==> #[trigger] out@[j] as int == vision_acc(
                        *self,
                        x as int,
                        y as int,
                        rotation as int,
                        foods@,
                        fi as int,
                    )[j],
                forall|j: int|
                    0 <= j < out@.len() ==> 0 <= #[trigger] out@[j] as int <= (fi as int) * (
                    SCALE as int),
        {
            let ghost prev: Seq<i64> = out@;
            let fd: &Food = &foods[fi];
            let dx: i64 = tor_delta(x, fd.x);
            let dy: i64 = tor_delta(y, fd.y);
            proof {
                assert(0 <= (dx as int) * (dx as int) <= (HALF_SCALE as int) * (HALF_SCALE as int))
                    by (nonlinear_arith)
                    requires
                        -(HALF_SCALE as int) <= dx as int <= HALF_SCALE as int,
                ;
                assert(0 <= (dy as int) * (dy as int) <= (HALF_SCALE as int) * (HALF_SCALE as int))
                    by (nonlinear_arith)
                    requires
                        -(HALF_SCALE as int) <= dy as int <= HALF_SCALE as int,
                ;
            }
            let sq: i64 = dx * dx + dy * dy;
            let dist_u: u64 = isqrt(sq as u64);
            let dist: i64 = dist_u as i64;
            proof {
                lemma_sqrt_floor_is(sq as int, dist as int);
                lemma_food_cell_ok(*self, x as int, y as int, rotation as int, foods@[fi as int]);
                lemma_vision_acc_len(*self, x as int, y as int, rotation as int, foods@, fi as int);
                lemma_vision_acc_len(
                    *self,
                    x as int,
                    y as int,
                    rotation as int,
                    foods@,
                    fi as int + 1,
                );
            }
            if dist <= self.fov_range {
                let ang: i64 = dia_angle(dx, dy);
                let rel: i64 = rel_angle(ang, rotation);
                let half_ap: i64 = self.fov_angle / 2;
                if -half_ap <= rel && rel <= half_ap {
                    proof {
                        assert(0 <= (rel as int + half_ap as int) * (cells as int)
                            <= (TURN as int) * 1000) by (nonlinear_arith)
                            requires
                                0 <= rel as int + half_ap as int <= TURN as int,
                                1 <= cells as int <= 1000,
                        ;
                    }
                    let raw: i64 = ((rel + half_ap) * (cells as i64)) / self.fov_angle;
                    proof {
                        assert(0 <= raw as int) by (nonlinear_arith)
                            requires
                                raw as int == ((rel as int + half_ap as int) * (cells as int)) / (
                                self.fov_angle as int),
                                0 <= rel as int + half_ap as int,
                                cells as int >= 1,
                                self.fov_angle as int >= 1,
                        ;
                    }
                    let mut cell: usize = raw as usize;
                    if cell >= cells {
                        cell = cells - 1;
                    }
                    let amount: i64 = ((self.fov_range - dist) * SCALE) / self.fov_range;
                    let cur: i64 = out[cell];
                    out.set(cell, cur + amount);
                }
            }
            proof {
                let ghost va_prev = vision_acc(
                    *self,
                    x as int,
                    y as int,
                    rotation as int,
                    foods@,
                    fi as int,
                );
                let ghost va_next = vision_acc(
                    *self,
                    x as int,
                    y as int,
                    rotation as int,
                    foods@,
                    fi as int + 1,
                );
                assert forall|j: int|
                    0 <= j < out@.len() implies #[trigger] out@[j] as int == va_next[j] && 0 <= out@[
                    j] as int <= (fi as int + 1) * (SCALE as int) by {
                    assert(va_prev[j] == prev[j] as int);
                }
            }
        }
        proof {
            assert forall|j: int| 0 <= j < out@.len() implies in_range(#[trigger] out@[j] as int)
                by {
                assert(out@[j] as int <= 1_000_000int * (SCALE as int));
            }
            assert(out@ =~= vision_of(*self, x as int, y as int, rotation as int, foods@));
        }
        out
    }
}

} // verus!
