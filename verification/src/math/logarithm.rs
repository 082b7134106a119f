//! The natural logarithm of a positive integer, in units of `2^-60`.
//!
//! The integer is split into a power of two and a mantissa between 1 and 2.
//! The logarithm of the mantissa is found by building the mantissa up from 1
//! as a product of factors `1 + 2^-k`, each taken at most once, and adding
//! up the logarithms of the factors taken.

use vstd::prelude::*;
use vstd::arithmetic::power2::{pow2, lemma_pow2_pos, lemma_pow2_unfold, lemma_pow2_strictly_increases, lemma2_to64, lemma2_to64_rest};
use crate::rounding::clamped;
use crate::math::scaling::{scaled, scaled_up, scaled_down, scale, Scaled, UNIT, UNIT_TWICE, SCALABLE_LIMIT};
use crate::math::tables::{ln_one_plus_pow2, ln_entry, STEPS, LN_2};

verus! {

/// A product of factors `1 + 2^-k` at the working precision, with the sum
/// of the logarithms of its factors.
pub struct Approach {
    pub product: int,
    pub log: int,
}

/// Takes the factor `1 + 2^-k` if the product stays at or below `target`.
pub open spec fn approach_step(s: Approach, target: int, k: nat) -> Approach {
    let next = s.product + s.product / (pow2(k) as int);
    if next <= target {
        Approach { product: next, log: s.log + ln_one_plus_pow2(k as int) }
    } else {
        s
    }
}

/// The steps `k`, `k + 1`, .. up to the last, applied in turn.
pub open spec fn approach_from(s: Approach, target: int, k: nat) -> Approach
    decreases STEPS + 1 - k,
{
    if k > STEPS {
        s
    } else {
        approach_from(approach_step(s, target, k), target, k + 1)
    }
}

/// The logarithm of the mantissa `m / 2^60`, where `2^60 <= m < 2^61`:
/// between 0 and `LN_2`.
pub open spec fn ln_mantissa(m: int) -> int {
    clamped(approach_from(Approach { product: UNIT as int, log: 0 }, m, 1).log, 0, LN_2 as int)
}

/// The natural logarithm of the integer `v >= 1`, in units of `2^-60`.
pub open spec fn ln_units(v: int) -> int {
    let s = scaled(0, v);
    (s.exp + 60) * LN_2 + ln_mantissa(s.hi)
}

/// Whether a product has reached the mantissa `target` from below, but for
/// less than 62 units of `2^-60`.
pub open spec fn reached(s: Approach, target: int) -> bool {
    0 < s.product <= target < s.product + 62
}

/// How far below the mantissa a product may be before the step that divides
/// by `p`, which is step `k`: the mantissa is below the product times
/// `1 + 2 / p`, but for one unit that each earlier step may have cut off.
pub open spec fn within_factor(s: Approach, target: int, k: int, p: int) -> bool {
    0 < s.product <= target && target * p < s.product * (p + 2) + (k - 1) * p
}

/// A step halves what is left: a product within the factor of step `k` is
/// within the factor of the next step after it.
proof fn lemma_step_closes_in(s: Approach, target: int, k: nat)
    requires
        1 <= k <= STEPS,
        within_factor(s, target, k as int, pow2(k) as int),
    ensures
        within_factor(approach_step(s, target, k), target, (k + 1) as int, pow2(k + 1) as int),
{
    let p = pow2(k) as int;
    lemma_pow2_pos(k);
    lemma_pow2_unfold(k + 1);
    let share = s.product / p;
    let next = s.product + share;
    assert(0 <= share && share * p <= s.product < share * p + p) by (nonlinear_arith)
        requires
            share == s.product / p,
            s.product > 0,
            p > 0,
    ;
    if next <= target {
        assert(target * (2 * p) < next * (2 * p + 2) + k * (2 * p)) by (nonlinear_arith)
            requires
                next == s.product + share,
                s.product < share * p + p,
                share >= 0,
                target * p < s.product * (p + 2) + (k - 1) * p,
                p > 0,
        ;
    } else {
        assert(target * (2 * p) < s.product * (2 * p + 2) + k * (2 * p)) by (nonlinear_arith)
            requires
                target < s.product + share,
                share * p <= s.product,
                p > 0,
                k >= 1,
        ;
    }
}

/// The steps from `k` on bring a product that is within the factor of step
/// `k` up to the mantissa.
proof fn lemma_steps_reach(s: Approach, target: int, k: nat)
    requires
        1 <= k <= STEPS + 1,
        target < UNIT_TWICE,
        within_factor(s, target, k as int, pow2(k) as int),
    ensures
        reached(approach_from(s, target, k), target),
    decreases STEPS + 1 - k,
{
    if k > STEPS {
        lemma2_to64_rest();
        let p = pow2(k) as int;
        assert(target < s.product + 62) by (nonlinear_arith)
            requires
                target * p < s.product * (p + 2) + 60 * p,
                s.product <= target < p,
                p > 0,
        ;
    } else {
        lemma_step_closes_in(s, target, k);
        lemma_steps_reach(approach_step(s, target, k), target, k + 1);
    }
}

/// The factors `1 + 2^-k` that are taken multiply to the mantissa, but for
/// less than 62 units of `2^-60`: the logarithm of the mantissa is the sum of
/// the logarithms of the factors of a product that has reached it.
pub proof fn lemma_factors_reach_mantissa(m: int)
    requires
        UNIT <= m < UNIT_TWICE,
    ensures
        reached(approach_from(Approach { product: UNIT as int, log: 0 }, m, 1), m),
{
    lemma2_to64();
    lemma_steps_reach(Approach { product: UNIT as int, log: 0 }, m, 1);
}

/// No factor is taken by a product that is at the mantissa already.
proof fn lemma_no_factor_taken(s: Approach, k: nat)
    requires
        1 <= k <= STEPS + 1,
        UNIT <= s.product,
    ensures
        approach_from(s, s.product, k) == s,
    decreases STEPS + 1 - k,
{
    if k <= STEPS {
        let p = pow2(k) as int;
        lemma_pow2_pos(k);
        if k < 60 {
            lemma_pow2_strictly_increases(k, 60);
        }
        lemma2_to64_rest();
        assert(s.product / p >= 1) by (nonlinear_arith)
            requires
                0 < p <= s.product,
        ;
        lemma_no_factor_taken(s, k + 1);
    }
}

/// Doubling brings a power of two up to `2^60`.
proof fn lemma_power_scaled_up(n: nat, exp: int)
    requires
        n <= 60,
    ensures
        scaled_up(Scaled { lo: 0, hi: pow2(n) as int, exp }) == (Scaled {
            lo: 0,
            hi: UNIT as int,
            exp: exp - (60 - n),
        }),
    decreases 60 - n,
{
    lemma2_to64_rest();
    lemma_pow2_pos(n);
    if n < 60 {
        lemma_pow2_strictly_increases(n, 60);
        lemma_pow2_unfold(n + 1);
        lemma_power_scaled_up(n + 1, exp - 1);
    }
}

/// Halving brings a power of two down to `2^60`.
proof fn lemma_power_scaled_down(n: nat, exp: int)
    requires
        n >= 60,
    ensures
        scaled_down(Scaled { lo: 0, hi: pow2(n) as int, exp }) == (Scaled {
            lo: 0,
            hi: UNIT as int,
            exp: exp + (n - 60),
        }),
    decreases n,
{
    lemma2_to64_rest();
    if n > 60 {
        lemma_pow2_strictly_increases(60, n);
        lemma_pow2_unfold(n);
        lemma_power_scaled_down((n - 1) as nat, exp + 1);
    }
}

/// The logarithm of a power of two is a whole multiple of `LN_2`, and the
/// logarithm of 1 is 0.
pub proof fn lemma_ln_of_power_of_two(n: nat)
    ensures
        ln_units(pow2(n) as int) == n * LN_2,
        ln_units(1) == 0,
{
    lemma2_to64();
    lemma2_to64_rest();
    lemma_no_factor_taken(Approach { product: UNIT as int, log: 0 }, 1);
    lemma_power_scaled_up(0, 0);
    if n <= 60 {
        lemma_power_scaled_up(n, 0);
    } else {
        lemma_pow2_strictly_increases(60, n);
        lemma_power_scaled_down(n, 0);
    }
    assert((n - 60 + 60) * LN_2 == n * LN_2);
}

/// The logarithm of a mantissa.
fn mantissa_log(m: u128) -> (r: i128)
    requires
        UNIT <= m < UNIT_TWICE,
    ensures
        r == ln_mantissa(m as int),
        0 <= r <= LN_2,
{
    let mut product: u128 = UNIT;
    let mut log: i128 = 0;
    let mut p: u128 = 2;
    let mut k: usize = 1;
    proof {
        lemma2_to64();
    }
    while k <= STEPS
        invariant
            1 <= k <= STEPS + 1,
            p == pow2(k as nat),
            UNIT <= m < UNIT_TWICE,
            product <= m,
            0 <= log <= UNIT * k,
            approach_from(Approach { product: product as int, log: log as int }, m as int, k as nat)
                == approach_from(Approach { product: UNIT as int, log: 0 }, m as int, 1),
        decreases STEPS + 1 - k,
    {
        proof {
            lemma_pow2_pos(k as nat);
            lemma_pow2_strictly_increases(k as nat, 61);
            lemma2_to64_rest();
            lemma_pow2_unfold((k + 1) as nat);
        }
        let next: u128 = product + product / p;
        if next <= m {
            product = next;
            log = log + ln_entry(k);
        }
        p = p * 2;
        k = k + 1;
    }
    if log > LN_2 {
        LN_2
    } else {
        log
    }
}

/// The natural logarithm of `v`, in units of `2^-60`.
pub fn ln(v: u128) -> (r: i128)
    requires
        0 < v < SCALABLE_LIMIT,
    ensures
        r == ln_units(v as int),
        0 <= r <= 127 * LN_2,
{
    let s = scale(0, v);
    let whole: i128 = (s.exp + 60) as i128;
    whole * LN_2 + mantissa_log(s.hi)
}

} // verus!
