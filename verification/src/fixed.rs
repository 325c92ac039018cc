//! Fixed-point evaluation of the exponential function.
//!
//! Curve values are carried in parts per million (ppm, 1_000_000 = 1.0).
//! Internally `e^-x` and `e^x` are evaluated at nano precision
//! (1_000_000_000 = 1.0) by splitting the argument into a whole part,
//! looked up in a table, and a fractional part, evaluated with a ten-term
//! power series.  Every function here is deterministic integer arithmetic,
//! so the same argument always yields the same value, and the range bounds
//! needed by the curve modules are proved, not assumed.

use vstd::prelude::*;

verus! {

use vstd::arithmetic::div_mod::{lemma_div_is_ordered, lemma_div_multiples_vanish,
    lemma_div_nonincreasing, lemma_div_pos_is_pos};
use vstd::arithmetic::mul::{lemma_mul_inequality, lemma_mul_is_commutative,
    lemma_mul_nonnegative, lemma_mul_unary_negation, lemma_mul_upper_bound};

/// For `0 <= f <= c` and `t >= 0`, scaling `t` by the ratio `f / c`
/// (rounded down) stays within `[0, t]`.
pub proof fn lemma_mul_div_bound(t: int, f: int, c: int)
    requires
        0 <= t,
        0 <= f <= c,
        0 < c,
    ensures
        0 <= t * f / c <= t,
{
    lemma_mul_nonnegative(t, f);
    lemma_div_pos_is_pos(t * f, c);
    lemma_mul_inequality(f, c, t);
    lemma_mul_is_commutative(t, f);
    lemma_mul_is_commutative(t, c);
    lemma_div_is_ordered(t * f, c * t, c);
    lemma_div_multiples_vanish(t, c);
}

/// Bounds on a product of a signed factor and a non-negative factor.
pub proof fn lemma_mul_signed_bound(a: int, m: int, b: int, n: int)
    requires
        -m <= a <= m,
        0 <= b <= n,
        0 <= m,
    ensures
        -(m * n) <= a * b <= m * n,
{
    lemma_mul_nonnegative(m, n);
    if a >= 0 {
        lemma_mul_nonnegative(a, b);
        lemma_mul_upper_bound(a, m, b, n);
    } else {
        lemma_mul_nonnegative(-a, b);
        lemma_mul_upper_bound(-a, m, b, n);
        lemma_mul_unary_negation(a, b);
    }
}

/// Bounds on a product of two signed factors.
pub proof fn lemma_mul_abs_bound(a: int, m: int, b: int, n: int)
    requires
        -m <= a <= m,
        -n <= b <= n,
        0 <= m,
        0 <= n,
    ensures
        -(m * n) <= a * b <= m * n,
{
    if b >= 0 {
        lemma_mul_signed_bound(a, m, b, n);
    } else {
        lemma_mul_signed_bound(a, m, -b, n);
        lemma_mul_unary_negation(a, b);
    }
}

/// Ten-term alternating power series for `e^-f` at nano scale,
/// for a fractional argument `0 <= f < 1_000_000_000`.
pub open spec fn exp_neg_frac_nanos(f: int) -> int {
    let t1 = f;
    let t2 = t1 * f / 2000000000;
    let t3 = t2 * f / 3000000000;
    let t4 = t3 * f / 4000000000;
    let t5 = t4 * f / 5000000000;
    let t6 = t5 * f / 6000000000;
    let t7 = t6 * f / 7000000000;
    let t8 = t7 * f / 8000000000;
    let t9 = t8 * f / 9000000000;
    let t10 = t9 * f / 10000000000;
    1000000000 - t1 + t2 - t3 + t4 - t5 + t6 - t7 + t8 - t9 + t10
}

/// The alternating series stays within `[0, 1_000_000_000]`: successive
/// terms shrink, so the partial sums are squeezed between the first two.
pub proof fn lemma_exp_neg_frac_range(f: int)
    requires
        0 <= f < 1000000000,
    ensures
        0 <= exp_neg_frac_nanos(f) <= 1000000000,
{
    let t1 = f;
    let t2 = t1 * f / 2000000000;
    let t3 = t2 * f / 3000000000;
    let t4 = t3 * f / 4000000000;
    let t5 = t4 * f / 5000000000;
    let t6 = t5 * f / 6000000000;
    let t7 = t6 * f / 7000000000;
    let t8 = t7 * f / 8000000000;
    let t9 = t8 * f / 9000000000;
    lemma_mul_div_bound(t1, f, 2000000000);
    lemma_mul_div_bound(t2, f, 3000000000);
    lemma_mul_div_bound(t3, f, 4000000000);
    lemma_mul_div_bound(t4, f, 5000000000);
    lemma_mul_div_bound(t5, f, 6000000000);
    lemma_mul_div_bound(t6, f, 7000000000);
    lemma_mul_div_bound(t7, f, 8000000000);
    lemma_mul_div_bound(t8, f, 9000000000);
    lemma_mul_div_bound(t9, f, 10000000000);
}

/// `e^-k` at nano scale for whole arguments `k`; zero from `k = 14` on,
/// where the true value rounds below one nano.
pub open spec fn exp_neg_whole_nanos(k: int) -> int {
    if k <= 0 {
        1000000000
    } else if k == 1 {
        367879441
    } else if k == 2 {
        135335283
    } else if k == 3 {
        49787068
    } else if k == 4 {
        18315639
    } else if k == 5 {
        6737947
    } else if k == 6 {
        2478752
    } else if k == 7 {
        911882
    } else if k == 8 {
        335463
    } else if k == 9 {
        123410
    } else if k == 10 {
        45400
    } else if k == 11 {
        16702
    } else if k == 12 {
        6144
    } else if k == 13 {
        2260
    } else {
        0
    }
}

/// `e^-x` in ppm for `x >= 0` given in ppm; zero from `x = 14.0` on.
pub open spec fn exp_neg_ppm(x: int) -> int {
    if x >= 14000000 {
        0
    } else {
        let k = x / 1000000;
        let f = (x % 1000000) * 1000;
        exp_neg_whole_nanos(k) * exp_neg_frac_nanos(f) / 1000000000 / 1000
    }
}

pub proof fn lemma_exp_neg_ppm_range(x: int)
    requires
        0 <= x,
    ensures
        0 <= exp_neg_ppm(x) <= 1000000,
{
    if x < 14000000 {
        let k = x / 1000000;
        let f = (x % 1000000) * 1000;
        assert(0 <= x % 1000000 < 1000000);
        lemma_exp_neg_frac_range(f);
        assert(0 <= exp_neg_whole_nanos(k) <= 1000000000);
        lemma_mul_div_bound(exp_neg_whole_nanos(k), exp_neg_frac_nanos(f), 1000000000);
    }
}

fn exp_neg_frac_calc(f: u64) -> (r: u64)
    requires
        f < 1000000000,
    ensures
        r as int == exp_neg_frac_nanos(f as int),
        r <= 1000000000,
{
    let t1: u64 = f;
    proof { lemma_mul_div_bound(t1 as int, f as int, 2000000000); }
    let t2: u64 = ((t1 as u128 * f as u128) / 2000000000) as u64;
    proof { lemma_mul_div_bound(t2 as int, f as int, 3000000000); }
    let t3: u64 = ((t2 as u128 * f as u128) / 3000000000) as u64;
    proof { lemma_mul_div_bound(t3 as int, f as int, 4000000000); }
    let t4: u64 = ((t3 as u128 * f as u128) / 4000000000) as u64;
    proof { lemma_mul_div_bound(t4 as int, f as int, 5000000000); }
    let t5: u64 = ((t4 as u128 * f as u128) / 5000000000) as u64;
    proof { lemma_mul_div_bound(t5 as int, f as int, 6000000000); }
    let t6: u64 = ((t5 as u128 * f as u128) / 6000000000) as u64;
    proof { lemma_mul_div_bound(t6 as int, f as int, 7000000000); }
    let t7: u64 = ((t6 as u128 * f as u128) / 7000000000) as u64;
    proof { lemma_mul_div_bound(t7 as int, f as int, 8000000000); }
    let t8: u64 = ((t7 as u128 * f as u128) / 8000000000) as u64;
    proof { lemma_mul_div_bound(t8 as int, f as int, 9000000000); }
    let t9: u64 = ((t8 as u128 * f as u128) / 9000000000) as u64;
    proof { lemma_mul_div_bound(t9 as int, f as int, 10000000000); }
    let t10: u64 = ((t9 as u128 * f as u128) / 10000000000) as u64;
    1000000000 - t1 + t2 - t3 + t4 - t5 + t6 - t7 + t8 - t9 + t10
}

fn exp_neg_whole_calc(k: u64) -> (r: u64)
    ensures
        r as int == exp_neg_whole_nanos(k as int),
        r <= 1000000000,
{
    if k == 0 {
        1000000000
    } else if k == 1 {
        367879441
    } else if k == 2 {
        135335283
    } else if k == 3 {
        49787068
    } else if k == 4 {
        18315639
    } else if k == 5 {
        6737947
    } else if k == 6 {
        2478752
    } else if k == 7 {
        911882
    } else if k == 8 {
        335463
    } else if k == 9 {
        123410
    } else if k == 10 {
        45400
    } else if k == 11 {
        16702
    } else if k == 12 {
        6144
    } else if k == 13 {
        2260
    } else {
        0
    }
}

/// Computes `exp_neg_ppm(x)` for any `x` given in ppm.
pub fn compute_exp_neg_ppm(x: u64) -> (r: u64)
    ensures
        r as int == exp_neg_ppm(x as int),
        r <= 1000000,
{
    if x >= 14000000 {
        return 0;
    }
    let k: u64 = x / 1000000;
    let f: u64 = (x % 1000000) * 1000;
    let tab: u64 = exp_neg_whole_calc(k);
    let frac: u64 = exp_neg_frac_calc(f);
    proof { lemma_mul_div_bound(tab as int, frac as int, 1000000000); }
    let q: u64 = ((tab as u128 * frac as u128) / 1000000000) as u64;
    q / 1000
}

/// Ten-term power series for `e^f` at nano scale, for a fractional
/// argument `0 <= f < 1_000_000_000`.
pub open spec fn exp_pos_frac_nanos(f: int) -> int {
    let t1 = f;
    let t2 = t1 * f / 2000000000;
    let t3 = t2 * f / 3000000000;
    let t4 = t3 * f / 4000000000;
    let t5 = t4 * f / 5000000000;
    let t6 = t5 * f / 6000000000;
    let t7 = t6 * f / 7000000000;
    let t8 = t7 * f / 8000000000;
    let t9 = t8 * f / 9000000000;
    let t10 = t9 * f / 10000000000;
    1000000000 + t1 + t2 + t3 + t4 + t5 + t6 + t7 + t8 + t9 + t10
}

pub proof fn lemma_exp_pos_frac_range(f: int)
    requires
        0 <= f < 1000000000,
    ensures
        1000000000 <= exp_pos_frac_nanos(f) <= 11000000000,
{
    let t1 = f;
    let t2 = t1 * f / 2000000000;
    let t3 = t2 * f / 3000000000;
    let t4 = t3 * f / 4000000000;
    let t5 = t4 * f / 5000000000;
    let t6 = t5 * f / 6000000000;
    let t7 = t6 * f / 7000000000;
    let t8 = t7 * f / 8000000000;
    let t9 = t8 * f / 9000000000;
    lemma_mul_div_bound(t1, f, 2000000000);
    lemma_mul_div_bound(t2, f, 3000000000);
    lemma_mul_div_bound(t3, f, 4000000000);
    lemma_mul_div_bound(t4, f, 5000000000);
    lemma_mul_div_bound(t5, f, 6000000000);
    lemma_mul_div_bound(t6, f, 7000000000);
    lemma_mul_div_bound(t7, f, 8000000000);
    lemma_mul_div_bound(t8, f, 9000000000);
    lemma_mul_div_bound(t9, f, 10000000000);
}

/// `e^k` at micro scale for whole arguments `0 <= k <= 13`.
pub open spec fn exp_pos_whole_micros(k: int) -> int {
    if k <= 0 {
        1000000
    } else if k == 1 {
        2718282
    } else if k == 2 {
        7389056
    } else if k == 3 {
        20085537
    } else if k == 4 {
        54598150
    } else if k == 5 {
        148413159
    } else if k == 6 {
        403428793
    } else if k == 7 {
        1096633158
    } else if k == 8 {
        2980957987
    } else if k == 9 {
        8103083928
    } else if k == 10 {
        22026465795
    } else if k == 11 {
        59874141715
    } else if k == 12 {
        162754791419
    } else {
        442413392009
    }
}

/// `e^y` in ppm for `y >= 0` given in ppm, saturated at `2 * 10^12`
/// (that is, two million as a real value) from `y = 14.0` on.  The
/// saturation point is high enough that a clamped consumer cannot tell
/// the difference.
pub open spec fn exp_pos_ppm(y: int) -> int {
    if y >= 14000000 {
        2000000000000
    } else {
        let k = y / 1000000;
        let f = (y % 1000000) * 1000;
        exp_pos_whole_micros(k) * exp_pos_frac_nanos(f) / 1000000000
    }
}

pub proof fn lemma_exp_pos_ppm_range(y: int)
    requires
        0 <= y,
    ensures
        0 <= exp_pos_ppm(y) <= 5000000000000,
{
    if y < 14000000 {
        let k = y / 1000000;
        let f = (y % 1000000) * 1000;
        assert(0 <= y % 1000000 < 1000000);
        lemma_exp_pos_frac_range(f);
        assert(0 <= k <= 13);
        assert(1000000 <= exp_pos_whole_micros(k) <= 442413392009);
        lemma_mul_nonnegative(exp_pos_whole_micros(k), exp_pos_frac_nanos(f));
        lemma_div_pos_is_pos(exp_pos_whole_micros(k) * exp_pos_frac_nanos(f), 1000000000);
        lemma_mul_inequality(exp_pos_whole_micros(k), 442413392009, exp_pos_frac_nanos(f));
        lemma_mul_inequality(exp_pos_frac_nanos(f), 11000000000, 442413392009);
        lemma_mul_is_commutative(exp_pos_whole_micros(k), exp_pos_frac_nanos(f));
        lemma_mul_is_commutative(442413392009, exp_pos_frac_nanos(f));
        lemma_div_is_ordered(exp_pos_whole_micros(k) * exp_pos_frac_nanos(f),
            (442413392009 as int) * 11000000000, 1000000000);
        assert((442413392009 as int) * 11000000000 / 1000000000 == 4866547312099);
    }
}

fn exp_pos_frac_calc(f: u64) -> (r: u64)
    requires
        f < 1000000000,
    ensures
        r as int == exp_pos_frac_nanos(f as int),
        r <= 11000000000,
{
    let t1: u64 = f;
    proof { lemma_mul_div_bound(t1 as int, f as int, 2000000000); }
    let t2: u64 = ((t1 as u128 * f as u128) / 2000000000) as u64;
    proof { lemma_mul_div_bound(t2 as int, f as int, 3000000000); }
    let t3: u64 = ((t2 as u128 * f as u128) / 3000000000) as u64;
    proof { lemma_mul_div_bound(t3 as int, f as int, 4000000000); }
    let t4: u64 = ((t3 as u128 * f as u128) / 4000000000) as u64;
    proof { lemma_mul_div_bound(t4 as int, f as int, 5000000000); }
    let t5: u64 = ((t4 as u128 * f as u128) / 5000000000) as u64;
    proof { lemma_mul_div_bound(t5 as int, f as int, 6000000000); }
    let t6: u64 = ((t5 as u128 * f as u128) / 6000000000) as u64;
    proof { lemma_mul_div_bound(t6 as int, f as int, 7000000000); }
    let t7: u64 = ((t6 as u128 * f as u128) / 7000000000) as u64;
    proof { lemma_mul_div_bound(t7 as int, f as int, 8000000000); }
    let t8: u64 = ((t7 as u128 * f as u128) / 8000000000) as u64;
    proof { lemma_mul_div_bound(t8 as int, f as int, 9000000000); }
    let t9: u64 = ((t8 as u128 * f as u128) / 9000000000) as u64;
    proof { lemma_mul_div_bound(t9 as int, f as int, 10000000000); }
    let t10: u64 = ((t9 as u128 * f as u128) / 10000000000) as u64;
    1000000000 + t1 + t2 + t3 + t4 + t5 + t6 + t7 + t8 + t9 + t10
}

fn exp_pos_whole_calc(k: u64) -> (r: u64)
    ensures
        r as int == exp_pos_whole_micros(k as int),
        r <= 442413392009,
{
    if k == 0 {
        1000000
    } else if k == 1 {
        2718282
    } else if k == 2 {
        7389056
    } else if k == 3 {
        20085537
    } else if k == 4 {
        54598150
    } else if k == 5 {
        148413159
    } else if k == 6 {
        403428793
    } else if k == 7 {
        1096633158
    } else if k == 8 {
        2980957987
    } else if k == 9 {
        8103083928
    } else if k == 10 {
        22026465795
    } else if k == 11 {
        59874141715
    } else if k == 12 {
        162754791419
    } else {
        442413392009
    }
}

/// Computes `exp_pos_ppm(y)` for any `y` given in ppm.
pub fn compute_exp_pos_ppm(y: u64) -> (r: u64)
    ensures
        r as int == exp_pos_ppm(y as int),
        r <= 5000000000000,
{
    if y >= 14000000 {
        return 2000000000000;
    }
    let k: u64 = y / 1000000;
    let f: u64 = (y % 1000000) * 1000;
    let tab: u64 = exp_pos_whole_calc(k);
    let frac: u64 = exp_pos_frac_calc(f);
    proof {
        lemma_exp_pos_ppm_range(y as int);
    }
    let q: u128 = (tab as u128 * frac as u128) / 1000000000;
    q as u64
}

/// Division by one million that rounds toward zero, so that negative
/// scaled products shrink the same way their positive mirrors do.
pub open spec fn sdiv_million(a: int) -> int {
    if a >= 0 {
        a / 1000000
    } else {
        -((-a) / 1000000)
    }
}

/// Computes `sdiv_million`, for arguments away from the extreme ends of
/// the `i128` range.
pub fn compute_sdiv_million(a: i128) -> (r: i128)
    requires
        -170141183460469231731687303715884105727 <= a,
    ensures
        r as int == sdiv_million(a as int),
        a >= 0 ==> 0 <= r <= a,
        a < 0 ==> a <= r <= 0,
{
    if a >= 0 {
        proof {
            lemma_div_pos_is_pos(a as int, 1000000);
            lemma_div_nonincreasing(a as int, 1000000);
        }
        ((a as u128) / 1000000) as i128
    } else {
        proof {
            lemma_div_pos_is_pos(-(a as int), 1000000);
            lemma_div_nonincreasing(-(a as int), 1000000);
        }
        let m: u128 = ((-a) as u128) / 1000000;
        -(m as i128)
    }
}

} // verus!
