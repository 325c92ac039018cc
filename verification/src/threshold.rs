//! Approval threshold curves.
//!
//! A threshold model maps elapsed time to the minimum approval ratio a
//! proposal must reach, in ppm.  Whatever the model or its parameters,
//! the result is clamped to `[0.35, 0.9]`: the clamp is a safety rail,
//! not a model detail.

use vstd::prelude::*;

verus! {

use crate::fixed::{compute_exp_neg_ppm, compute_exp_pos_ppm, compute_sdiv_million,
    exp_neg_ppm, exp_pos_ppm, lemma_mul_abs_bound, lemma_mul_signed_bound, sdiv_million};
use vstd::arithmetic::div_mod::{lemma_div_is_ordered, lemma_div_is_ordered_by_denominator,
    lemma_div_multiples_vanish, lemma_div_nonincreasing, lemma_div_of0, lemma_div_pos_is_pos};
use vstd::arithmetic::mul::{lemma_mul_by_zero_is_zero, lemma_mul_inequality,
    lemma_mul_is_commutative, lemma_mul_nonnegative, lemma_mul_unary_negation};

/// How the required approval ratio grows over time.
///
/// All parameters are given in ppm (1_000_000 = 1.0).
#[derive(Clone, Copy, Debug, PartialEq, Eq, Structural)]
pub enum ThresholdModel {
    /// `t * rate + start`: a steady climb.
    Linear(i64, i64),
    /// `base + (1 - base) * (1 - e^(-rate * t))`: asymptotic approach.
    Exponential(i64, i64),
    /// `floor + (1 - floor) * sigmoid(rate * (t / total - 0.5))`:
    /// an S-curve centred on the middle of the window.
    Sigmoid(i64, i64),
}

/// The hard rail: every threshold lands in `[350_000, 900_000]` ppm.
pub open spec fn clamp_ppm(v: int) -> int {
    if v < 350000 {
        350000
    } else if v > 900000 {
        900000
    } else {
        v
    }
}

/// The logistic function `1 / (1 + e^-z)` in ppm, for `z` in ppm.
pub open spec fn sigmoid_ppm(z: int) -> int {
    if z >= 0 {
        1000000000000int / (1000000 + exp_neg_ppm(z))
    } else {
        let e = exp_neg_ppm(-z);
        e * 1000000 / (1000000 + e)
    }
}

/// The required approval ratio, in ppm, at elapsed time `t` within a
/// window of `total` seconds.
pub open spec fn threshold_value(model: ThresholdModel, t: int, total: int) -> int {
    match model {
        ThresholdModel::Linear(rate, start) => clamp_ppm(t * rate + start),
        ThresholdModel::Exponential(rate, base) => {
            let x = rate * t;
            if x >= 0 {
                clamp_ppm(base + sdiv_million((1000000 - base) * (1000000 - exp_neg_ppm(x))))
            } else {
                clamp_ppm(1000000 - sdiv_million((1000000 - base) * exp_pos_ppm(-x)))
            }
        },
        ThresholdModel::Sigmoid(rate, floor) => {
            let x = t * 1000000 / total;
            let z = sdiv_million(rate * (x - 500000));
            clamp_ppm(floor + sdiv_million((1000000 - floor) * sigmoid_ppm(z)))
        },
    }
}

/// Every threshold curve stays within `[0.35, 0.9]` in ppm, whatever the
/// model, its parameters, or the timing arguments.
pub proof fn lemma_threshold_range(model: ThresholdModel, t: int, total: int)
    ensures
        350000 <= threshold_value(model, t, total) <= 900000,
{
}

/// A scaled product of factors whose signs agree, one of magnitude at
/// least one and one of magnitude at least `2 * 10^13`, lands beyond the
/// saturation point of the logistic curve.
proof fn lemma_big_product_sdiv(r: int, d: int)
    requires
        r >= 1 || r <= -1,
        d >= 20000000000000 || d <= -20000000000000,
    ensures
        (r >= 1 && d > 0) || (r <= -1 && d < 0) ==> sdiv_million(r * d) >= 14000000,
        (r >= 1 && d > 0) || (r <= -1 && d < 0) ==> r * d >= 0,
        (r >= 1 && d < 0) || (r <= -1 && d > 0) ==> sdiv_million(r * d) <= -14000000,
        (r >= 1 && d < 0) || (r <= -1 && d > 0) ==> r * d < 0,
{
    if r >= 1 && d > 0 {
        lemma_mul_inequality(1, r, d);
        lemma_div_is_ordered(20000000000000, r * d, 1000000);
    } else if r <= -1 && d < 0 {
        lemma_mul_inequality(1, -r, -d);
        lemma_mul_cancels_both(r, d);
        lemma_div_is_ordered(20000000000000, r * d, 1000000);
    } else if r >= 1 && d < 0 {
        lemma_mul_inequality(1, r, -d);
        lemma_mul_unary_negation(r, d);
        lemma_div_is_ordered(20000000000000, -(r * d), 1000000);
    } else {
        lemma_mul_inequality(1, -r, d);
        lemma_mul_unary_negation(r, d);
        lemma_div_is_ordered(20000000000000, -(r * d), 1000000);
    }
}

proof fn lemma_mul_cancels_both(r: int, d: int)
    ensures
        r * d == (-r) * (-d),
{
    lemma_mul_unary_negation(r, d);
    lemma_mul_unary_negation(-r, d);
}

fn clamp_calc(v: i128) -> (r: u64)
    ensures
        r as int == clamp_ppm(v as int),
        350000 <= r <= 900000,
{
    if v < 350000 {
        350000
    } else if v > 900000 {
        900000
    } else {
        v as u64
    }
}

/// Calculates the approval threshold, in ppm, at `t` seconds into a
/// voting period of `total` seconds.
pub fn threshold_calc(model: &ThresholdModel, t: u64, total: u64) -> (r: u64)
    requires
        model is Sigmoid ==> 0 < total,
    ensures
        r as int == threshold_value(*model, t as int, total as int),
        350000 <= r <= 900000,
{
    match model {
        ThresholdModel::Linear(rate, start) => {
            let rr: i64 = *rate;
            let ss: i64 = *start;
            proof {
                lemma_mul_signed_bound(rr as int, 0x8000000000000000, t as int,
                    0xFFFFFFFFFFFFFFFF);
                lemma_mul_is_commutative(rr as int, t as int);
            }
            let p: i128 = (t as i128) * (rr as i128);
            clamp_calc(p + (ss as i128))
        },
        ThresholdModel::Exponential(rate, base) => {
            let rr: i64 = *rate;
            let bb: i64 = *base;
            proof {
                lemma_mul_signed_bound(rr as int, 0x8000000000000000, t as int,
                    0xFFFFFFFFFFFFFFFF);
            }
            let x: i128 = (rr as i128) * (t as i128);
            let gb: i128 = 1000000 - (bb as i128);
            if x >= 0 {
                let e: u64 = if x >= 14000000 {
                    0
                } else {
                    compute_exp_neg_ppm(x as u64)
                };
                let growth: u64 = 1000000 - e;
                proof {
                    lemma_mul_signed_bound(gb as int, (0x8000000000000000 as int) + 1000000,
                        growth as int, 1000000);
                }
                let prod: i128 = gb * (growth as i128);
                let term: i128 = compute_sdiv_million(prod);
                clamp_calc((bb as i128) + term)
            } else {
                let y: i128 = -x;
                let big: u64 = if y >= 14000000 {
                    2000000000000
                } else {
                    compute_exp_pos_ppm(y as u64)
                };
                proof {
                    lemma_mul_signed_bound(gb as int, (0x8000000000000000 as int) + 1000000,
                        big as int, 5000000000000);
                }
                let prod: i128 = gb * (big as i128);
                let term: i128 = compute_sdiv_million(prod);
                clamp_calc(1000000 - term)
            }
        },
        ThresholdModel::Sigmoid(rate, floor) => {
            let rr: i64 = *rate;
            let ff: i64 = *floor;
            proof {
                lemma_mul_nonnegative(t as int, 1000000);
                lemma_div_pos_is_pos(t as int * 1000000, total as int);
                lemma_div_nonincreasing(t as int * 1000000, total as int);
            }
            let x: u128 = (t as u128 * 1000000) / (total as u128);
            let d: i128 = (x as i128) - 500000;
            let sig: u64 = sigmoid_of(rr, d);
            let gf: i128 = 1000000 - (ff as i128);
            proof {
                lemma_mul_signed_bound(gf as int, (0x8000000000000000 as int) + 1000000,
                    sig as int, 1000000);
            }
            let prod: i128 = gf * (sig as i128);
            let term: i128 = compute_sdiv_million(prod);
            clamp_calc((ff as i128) + term)
        },
    }
}

/// The logistic value `sigmoid_ppm` of the scaled product `rate * d`,
/// saturating the far tails without forming the full product.
fn sigmoid_of(rate: i64, d: i128) -> (sig: u64)
    requires
        -600000 <= d < 170141183460469231731687303715884105727,
    ensures
        sig as int == sigmoid_ppm(sdiv_million(rate as int * d as int)),
        sig <= 1000000,
{
    if rate == 0 {
        proof {
            lemma_mul_by_zero_is_zero(d as int);
            lemma_div_of0(1000000);
        }
        sigmoid_mid_calc(0)
    } else if d >= 20000000000000 || d <= -20000000000000 {
        proof {
            lemma_big_product_sdiv(rate as int, d as int);
            lemma_div_of0(1000000);
        }
        if (rate > 0) == (d > 0) {
            proof {
                assert(1000000000000int / 1000000int == 1000000int);
            }
            1000000
        } else {
            0
        }
    } else {
        proof {
            lemma_mul_abs_bound(rate as int, 0x8000000000000000, d as int,
                20000000000000);
        }
        let p: i128 = (rate as i128) * d;
        let z: i128 = compute_sdiv_million(p);
        if z >= 0 {
            sigmoid_mid_calc(z)
        } else {
            let e: u64 = if -z >= 14000000 {
                0
            } else {
                compute_exp_neg_ppm((-z) as u64)
            };
            proof {
                lemma_div_is_ordered(e as int * 1000000, (1000000 + e as int) * 1000000,
                    1000000 + e as int);
                lemma_div_multiples_vanish(1000000, 1000000 + e as int);
                lemma_mul_is_commutative(1000000 + e as int, 1000000);
                lemma_mul_inequality(e as int, 1000000 + e as int, 1000000);
                lemma_mul_nonnegative(e as int, 1000000);
                lemma_div_pos_is_pos(e as int * 1000000, 1000000 + e as int);
            }
            ((e as u128 * 1000000) / (1000000 + e as u128)) as u64
        }
    }
}

/// The logistic value for a non-negative scaled argument.
fn sigmoid_mid_calc(z: i128) -> (sig: u64)
    requires
        z >= 0,
    ensures
        sig as int == sigmoid_ppm(z as int),
        500000 <= sig <= 1000000,
{
    let e: u64 = if z >= 14000000 {
        0
    } else {
        compute_exp_neg_ppm(z as u64)
    };
    proof {
        lemma_div_is_ordered_by_denominator(1000000000000, 1000000, 1000000 + e as int);
        lemma_div_is_ordered_by_denominator(1000000000000, 1000000 + e as int, 2000000);
    }
    1000000000000 / (1000000 + e)
}

} // verus!
