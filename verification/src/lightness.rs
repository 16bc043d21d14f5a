use vstd::prelude::*;

use crate::error::GridError;
use crate::frac::{frac_le, Frac};
use crate::heatmap::{cell_position, CellPoint};
use vstd::arithmetic::mul::{lemma_mul_inequality, lemma_mul_upper_bound};

verus! {

/// The largest log-scaled count this module accepts, so that every
/// intermediate product below fits in a `u64`. A count of at most
/// `u64::MAX` has a common logarithm under 20, so any fixed-point log
/// scale up to `2^27` units per decade stays below this cap.
pub const MAX_LOG_UNITS: u64 = 0x1_0000_0000;

/// The configured perceptual floor and ceiling of the lightness scale,
/// in permille. The floor keeps low-count cells visible against the
/// background; the cell with the maximum count reaches the ceiling.
#[derive(Clone, Copy, Debug, PartialEq, Eq, Structural)]
pub struct LightnessBounds {
    pub min_permille: u32,
    pub max_permille: u32,
}

impl LightnessBounds {
    /// A valid scale: floor at most ceiling, ceiling at most full
    /// lightness.
    pub open spec fn wf(self) -> bool {
        self.min_permille <= self.max_permille && self.max_permille <= 1000
    }

    /// Builds a lightness scale, rejecting exactly the configurations
    /// whose floor exceeds their ceiling or whose ceiling exceeds full
    /// lightness.
    pub fn new(min_permille: u32, max_permille: u32) -> (r: Result<LightnessBounds, GridError>)
        ensures
            match r {
                Ok(b) => {
                    &&& b.min_permille == min_permille
                    &&& b.max_permille == max_permille
                    &&& b.wf()
                },
                Err(e) => {
                    &&& e == GridError::InvalidConfig
                    &&& (min_permille > max_permille || max_permille > 1000)
                },
            },
    {
        if min_permille > max_permille || max_permille > 1000 {
            Err(GridError::InvalidConfig)
        } else {
            Ok(LightnessBounds { min_permille, max_permille })
        }
    }

    /// The default bounds: floor 0.3, ceiling 1.0.
    pub fn defaults() -> (r: LightnessBounds)
        ensures
            r.min_permille == 300,
            r.max_permille == 1000,
            r.wf(),
    {
        LightnessBounds { min_permille: 300, max_permille: 1000 }
    }
}

/// The numerator of the lightness value
/// `(log_val / log_max) * (L_max - L_min) + L_min` written over the common
/// denominator `1000 * log_max`.
pub open spec fn spec_lightness_num(log_val: int, log_max: int, b: LightnessBounds) -> int {
    b.min_permille * log_max + log_val * (b.max_permille - b.min_permille)
}

/// The log-scale lightness of one non-empty cell: with `log_val` the
/// log-scaled counter of the cell and `log_max` the log-scaled maximum
/// counter of the grid (both in the same fixed-point log units), the
/// exact rational
/// `(log_val / log_max) * (L_max - L_min) + L_min`.
///
/// When the maximum counter is 1 its logarithm is zero, `log_max` is 0,
/// and the map degenerates: every non-empty cell then has `log_val == 0`
/// as well and receives exactly the floor `L_min`, a defined, flat
/// result. The result always lies within `[L_min, L_max]`.
pub fn lightness(log_val: u64, log_max: u64, b: LightnessBounds) -> (r: Frac)
    requires
        b.wf(),
        log_val <= log_max,
        log_max <= MAX_LOG_UNITS,
    ensures
        log_max > 0 ==> r.num == spec_lightness_num(log_val as int, log_max as int, b) && r.den
            == 1000 * log_max,
        log_max == 0 ==> r.num == b.min_permille && r.den == 1000,
        r.den > 0,
        frac_le(Frac { num: b.min_permille as u64, den: 1000 }, r),
        frac_le(r, Frac { num: b.max_permille as u64, den: 1000 }),
{
    if log_max == 0 {
        let r = Frac { num: b.min_permille as u64, den: 1000 };
        proof {
            lemma_mul_inequality(b.min_permille as int, b.max_permille as int, 1000);
        }
        r
    } else {
        let delta: u64 = (b.max_permille - b.min_permille) as u64;
        proof {
            lemma_mul_upper_bound(b.min_permille as int, 1000, log_max as int, MAX_LOG_UNITS as int);
            lemma_mul_upper_bound(log_val as int, MAX_LOG_UNITS as int, delta as int, 1000);
            lemma_mul_upper_bound(1000, 1000, log_max as int, MAX_LOG_UNITS as int);
        }
        let num: u64 = (b.min_permille as u64) * log_max + log_val * delta;
        let den: u64 = 1000u64 * log_max;
        let r = Frac { num, den };
        proof {
            lemma_lightness_monotone(
                log_val as int,
                log_val as int,
                log_max as int,
                b,
                r,
                r,
            );
        }
        r
    }
}

/// One renderable point of the sparse heatmap: the plot-space position
/// of its cell within the unit square, and its lightness.
#[derive(Clone, Copy, Debug, PartialEq, Eq, Structural)]
pub struct HeatPoint {
    pub x_pos: Frac,
    pub y_pos: Frac,
    pub light: Frac,
}

/// Turns the sparse cell sequence of a `width` x `height` grid into the
/// renderable point sequence, one point per cell in the same order: the
/// cell's grid coordinates become the exact plot-space position
/// `(x / width, y / height)`, and its log-scaled counter `logs[i]`
/// becomes the lightness that `lightness` derives. Every emitted
/// lightness lies within the configured bounds.
pub fn heat_points(
    cells: &Vec<CellPoint>,
    logs: &Vec<u64>,
    log_max: u64,
    b: LightnessBounds,
    width: usize,
    height: usize,
) -> (r: Vec<HeatPoint>)
    requires
        b.wf(),
        logs@.len() == cells@.len(),
        forall|i: int| 0 <= i < logs@.len() ==> logs@[i] <= log_max,
        log_max <= MAX_LOG_UNITS,
        width >= 1,
        height >= 1,
    ensures
        r@.len() == cells@.len(),
        forall|i: int|
            0 <= i < r@.len() ==> {
                let p = #[trigger] r@[i];
                &&& p.x_pos.num == cells@[i].x && p.x_pos.den == width
                &&& p.y_pos.num == cells@[i].y && p.y_pos.den == height
                &&& (log_max > 0 ==> p.light.num == spec_lightness_num(
                    logs@[i] as int,
                    log_max as int,
                    b,
                ) && p.light.den == 1000 * log_max)
                &&& (log_max == 0 ==> p.light.num == b.min_permille && p.light.den == 1000)
                &&& frac_le(Frac { num: b.min_permille as u64, den: 1000 }, p.light)
                &&& frac_le(p.light, Frac { num: b.max_permille as u64, den: 1000 })
            },
{
    let n: usize = cells.len();
    let mut r: Vec<HeatPoint> = Vec::new();
    let mut i: usize = 0;
    while i < n
        invariant
            i <= n,
            n == cells@.len(),
            logs@.len() == n,
            b.wf(),
            log_max <= MAX_LOG_UNITS,
            width >= 1,
            height >= 1,
            forall|j: int| 0 <= j < n ==> logs@[j] <= log_max,
            r@.len() == i,
            forall|j: int|
                0 <= j < i ==> {
                    let p = #[trigger] r@[j];
                    &&& p.x_pos.num == cells@[j].x && p.x_pos.den == width
                    &&& p.y_pos.num == cells@[j].y && p.y_pos.den == height
                    &&& (log_max > 0 ==> p.light.num == spec_lightness_num(
                        logs@[j] as int,
                        log_max as int,
                        b,
                    ) && p.light.den == 1000 * log_max)
                    &&& (log_max == 0 ==> p.light.num == b.min_permille && p.light.den == 1000)
                    &&& frac_le(Frac { num: b.min_permille as u64, den: 1000 }, p.light)
                    &&& frac_le(p.light, Frac { num: b.max_permille as u64, den: 1000 })
                },
        decreases n - i,
    {
        let c: CellPoint = cells[i];
        let light = lightness(logs[i], log_max, b);
        r.push(HeatPoint {
            x_pos: cell_position(c.x, width),
            y_pos: cell_position(c.y, height),
            light,
        });
        i = i + 1;
    }
    r
}

/// Log-scale monotonicity: over one grid (a shared `log_max > 0`) and one
/// lightness scale, a cell whose log-scaled counter is at most another's
/// receives at most the other's lightness, and both lightness values lie
/// within `[L_min, L_max]`.
pub proof fn lemma_lightness_monotone(
    g1: int,
    g2: int,
    gmax: int,
    b: LightnessBounds,
    r1: Frac,
    r2: Frac,
)
    requires
        b.wf(),
        0 <= g1 <= g2 <= gmax,
        gmax > 0,
        r1.num == spec_lightness_num(g1, gmax, b),
        r1.den == 1000 * gmax,
        r2.num == spec_lightness_num(g2, gmax, b),
        r2.den == 1000 * gmax,
    ensures
        frac_le(r1, r2),
        frac_le(Frac { num: b.min_permille as u64, den: 1000 }, r1),
        frac_le(r2, Frac { num: b.max_permille as u64, den: 1000 }),
{
    let mn = b.min_permille as int;
    let mx = b.max_permille as int;
    let dl = mx - mn;
    lemma_mul_inequality(g1, g2, dl);
    lemma_mul_inequality(
        spec_lightness_num(g1, gmax, b),
        spec_lightness_num(g2, gmax, b),
        1000 * gmax,
    );
    assert(mn * (1000 * gmax) <= (mn * gmax + g1 * dl) * 1000) by (nonlinear_arith)
        requires
            0 <= mn,
            0 <= g1,
            0 <= dl,
            0 < gmax,
    ;
    assert((mn * gmax + g2 * dl) * 1000 <= mx * (1000 * gmax)) by (nonlinear_arith)
        requires
            0 <= mn,
            0 <= dl,
            0 <= g2 <= gmax,
            mn + dl == mx,
            0 < gmax,
    ;
}

} // verus!
