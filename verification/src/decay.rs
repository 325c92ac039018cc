//! Vote weight decay curves.
//!
//! A decay model maps the time a vote arrived (relative to the start of
//! the voting window) to a weight multiplier in ppm.  Every curve is
//! floored at 100_000 ppm (0.1), so no vote ever loses all influence.

use vstd::prelude::*;

verus! {

use crate::fixed::{compute_exp_neg_ppm, exp_neg_ppm, lemma_exp_neg_ppm_range};
use vstd::arithmetic::div_mod::{lemma_div_is_ordered, lemma_div_multiples_vanish,
    lemma_div_of0, lemma_div_pos_is_pos};
use vstd::arithmetic::mul::{lemma_mul_inequality, lemma_mul_nonnegative, lemma_mul_upper_bound};

/// How a vote's weight shrinks as the voting window ages.
///
/// The exponential rate parameter is given in ppm per second and is
/// expected to be non-negative.
#[derive(Clone, Copy, Debug, PartialEq, Eq, Structural)]
pub enum DecayModel {
    /// Steady decline from 1.0 down to the 0.1 floor over the window.
    Linear,
    /// `e^(-rate * t)`, rapid early decline that flattens out.
    Exponential(i64),
    /// Discrete tiers 1.0 / 0.5 / 0.1 by thirds of the window.
    Stepped,
}

/// The weight multiplier, in ppm, that a decay model assigns to elapsed
/// time `t` within a window of `total` seconds.
pub open spec fn decay_weight(model: DecayModel, t: int, total: int) -> int {
    match model {
        DecayModel::Linear => {
            let w = 1000000 - t * 1000000 / total;
            if w < 100000 {
                100000
            } else {
                w
            }
        },
        DecayModel::Exponential(rate) => {
            let w = exp_neg_ppm(rate * t);
            if w < 100000 {
                100000
            } else {
                w
            }
        },
        DecayModel::Stepped => {
            if t <= total / 3 {
                1000000
            } else if t <= 2 * total / 3 {
                500000
            } else {
                100000
            }
        },
    }
}

/// For elapsed times within the window, the linear fraction
/// `t * 1000000 / total` never exceeds one in ppm.
proof fn lemma_linear_frac_le(t: int, total: int)
    requires
        0 <= t <= total,
        0 < total,
    ensures
        0 <= t * 1000000 / total <= 1000000,
{
    lemma_mul_nonnegative(t, 1000000);
    lemma_div_pos_is_pos(t * 1000000, total);
    lemma_mul_inequality(t, total, 1000000);
    lemma_div_is_ordered(t * 1000000, total * 1000000, total);
    lemma_div_multiples_vanish(1000000, total);
}

/// Every decay curve stays within `[0.1, 1.0]` in ppm.
pub proof fn lemma_decay_weight_range(model: DecayModel, t: int, total: int)
    requires
        0 <= t,
        model is Linear ==> 0 < total,
        model matches DecayModel::Exponential(rate) ==> rate >= 0,
    ensures
        100000 <= decay_weight(model, t, total) <= 1000000,
{
    match model {
        DecayModel::Linear => {
            lemma_mul_nonnegative(t, 1000000);
            lemma_div_pos_is_pos(t * 1000000, total);
        },
        DecayModel::Exponential(rate) => {
            lemma_mul_nonnegative(rate as int, t);
            lemma_exp_neg_ppm_range(rate * t);
        },
        DecayModel::Stepped => {},
    }
}

/// The linear curve starts at full weight, sits exactly at one half at
/// the midpoint of an even window, and is floored at one tenth from the
/// end of the window on.
pub proof fn lemma_linear_decay_profile(t: int, total: int)
    requires
        0 < total,
    ensures
        decay_weight(DecayModel::Linear, 0, total) == 1000000,
        total % 2 == 0 ==> decay_weight(DecayModel::Linear, total / 2, total) == 500000,
        t >= total ==> decay_weight(DecayModel::Linear, t, total) == 100000,
{
    lemma_div_of0(total);
    if total % 2 == 0 {
        let m = total / 2;
        assert(m * 1000000 == total * 500000);
        lemma_div_multiples_vanish(500000, total);
    }
    if t >= total {
        lemma_mul_inequality(total, t, 1000000);
        lemma_div_is_ordered(total * 1000000, t * 1000000, total);
        lemma_div_multiples_vanish(1000000, total);
    }
}

/// The stepped curve takes exactly the values 1.0, 0.5 and 0.1 on the
/// three thirds of the window, with the lower tier inclusive.
pub proof fn lemma_stepped_decay_profile(t: int, total: int)
    requires
        0 <= total,
    ensures
        t <= total / 3 ==> decay_weight(DecayModel::Stepped, t, total) == 1000000,
        total / 3 < t <= 2 * total / 3 ==> decay_weight(DecayModel::Stepped, t, total) == 500000,
        t > 2 * total / 3 ==> decay_weight(DecayModel::Stepped, t, total) == 100000,
{
    lemma_div_is_ordered(total, 2 * total, 3);
}

/// Calculates the weight multiplier, in ppm, for a vote cast `t` seconds
/// into a voting period of `total` seconds.
pub fn weight_calc(model: &DecayModel, t: u64, total: u64) -> (w: u64)
    requires
        model is Linear ==> 0 < total,
        model matches DecayModel::Exponential(rate) ==> rate >= 0,
    ensures
        w as int == decay_weight(*model, t as int, total as int),
        100000 <= w <= 1000000,
{
    proof {
        lemma_decay_weight_range(*model, t as int, total as int);
    }
    match model {
        DecayModel::Linear => {
            if t >= total {
                proof { lemma_linear_decay_profile(t as int, total as int); }
                100000
            } else {
                proof { lemma_linear_frac_le(t as int, total as int); }
                let frac: u64 = ((t as u128 * 1000000) / (total as u128)) as u64;
                let base: u64 = 1000000 - frac;
                if base < 100000 {
                    100000
                } else {
                    base
                }
            }
        },
        DecayModel::Exponential(rate) => {
            let r: i64 = *rate;
            proof {
                lemma_mul_nonnegative(r as int, t as int);
                lemma_mul_upper_bound(r as int, 0x8000000000000000, t as int,
                    0xFFFFFFFFFFFFFFFF);
            }
            let x: u128 = (r as u128) * (t as u128);
            if x >= 14000000 {
                100000
            } else {
                let e: u64 = compute_exp_neg_ppm(x as u64);
                if e < 100000 {
                    100000
                } else {
                    e
                }
            }
        },
        DecayModel::Stepped => {
            if t <= total / 3 {
                1000000
            } else if (t as u128) <= 2 * (total as u128) / 3 {
                500000
            } else {
                100000
            }
        },
    }
}

} // verus!
