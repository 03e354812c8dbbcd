//! Continuous compounding in fixed point.
//!
//! A rate is a number per second scaled by [`WAD`]. Growth over a span is the
//! exponential of rate times seconds, taken as the first terms of its power
//! series, each term rounded toward zero.

use vstd::prelude::*;
use vstd::arithmetic::div_mod::*;
use vstd::arithmetic::mul::*;
use crate::errors::ErrorCode;

verus! {

/// Fixed-point unit: a rate or a growth factor of one is stored as this number.
pub const WAD: u64 = 1_000_000_000_000_000_000;

/// The largest exponent, rate times seconds, that accrual accepts: two, in
/// fixed point. Beyond it the span is reported as an overflow.
pub const MAX_EXPONENT: u128 = 2_000_000_000_000_000_000;

/// The index of the last term of the series that is summed.
pub const EXP_TERMS: u64 = 30;

/// Five percent a year, compounded continuously, as a rate per second.
pub const DEFAULT_INTEREST_RATE: u64 = 1_585_489_599;

/// Term `k` of the series for the exponential of `x / WAD`, scaled by `WAD`:
/// the term before it times `x / (k * WAD)`, rounded toward zero.
pub open spec fn exp_term(x: int, k: nat) -> int
    decreases k,
{
    if k == 0 {
        WAD as int
    } else {
        exp_term(x, (k - 1) as nat) * x / (k * WAD)
    }
}

/// The sum of the terms `0 ..= n`.
pub open spec fn exp_sum(x: int, n: nat) -> int
    decreases n,
{
    if n == 0 {
        exp_term(x, 0)
    } else {
        exp_sum(x, (n - 1) as nat) + exp_term(x, n)
    }
}

/// The growth factor for the exponent `x / WAD`, scaled by `WAD`.
pub open spec fn exp_wad(x: int) -> int {
    exp_sum(x, EXP_TERMS as nat)
}

/// What a principal has grown to after `elapsed` seconds at `rate`.
///
/// A negative span is an error and never read as decay. Nothing grows from
/// nothing, whatever the span. Otherwise the exponent must lie within
/// [`MAX_EXPONENT`] and the grown amount, rounded toward zero, must fit.
pub open spec fn accrue_spec(principal: u64, rate: u64, elapsed: int) -> Result<u64, ErrorCode> {
    if elapsed < 0 {
        Err(ErrorCode::InvalidTimeRange)
    } else if principal == 0 {
        Ok(0u64)
    } else if rate * elapsed > MAX_EXPONENT {
        Err(ErrorCode::AccrualOverflow)
    } else if principal * exp_wad(rate * elapsed) / (WAD as int) > u64::MAX {
        Err(ErrorCode::AccrualOverflow)
    } else {
        Ok((principal * exp_wad(rate * elapsed) / (WAD as int)) as u64)
    }
}

/// Within the accepted exponents no term exceeds the largest exponent.
pub proof fn lemma_exp_term_bound(x: int, k: nat)
    requires
        0 <= x <= MAX_EXPONENT,
    ensures
        0 <= exp_term(x, k) <= MAX_EXPONENT,
    decreases k,
{
    if k == 0 {
    } else if k == 1 {
        assert(exp_term(x, 0) == WAD);
        assert((WAD as int) * x / (1 * WAD) == x) by (nonlinear_arith);
    } else {
        lemma_exp_term_bound(x, (k - 1) as nat);
        let t = exp_term(x, (k - 1) as nat);
        let d: int = k * WAD;
        assert(t * x / d <= t) by (nonlinear_arith)
            requires
                0 <= t,
                0 <= x <= 2_000_000_000_000_000_000,
                d >= 2_000_000_000_000_000_000,
        ;
    }
}

/// The partial sums start at one and stay within `n + 1` largest terms.
pub proof fn lemma_exp_sum_bounds(x: int, n: nat)
    requires
        0 <= x <= MAX_EXPONENT,
    ensures
        WAD <= exp_sum(x, n) <= (n + 1) * MAX_EXPONENT,
    decreases n,
{
    if n == 0 {
    } else {
        lemma_exp_sum_bounds(x, (n - 1) as nat);
        lemma_exp_term_bound(x, n);
        assert((n + 1) * MAX_EXPONENT == n * MAX_EXPONENT + MAX_EXPONENT) by (nonlinear_arith);
    }
}

/// At exponent zero every term after the first vanishes: the factor is one.
pub proof fn lemma_exp_sum_at_zero(n: nat)
    ensures
        exp_sum(0, n) == WAD,
        n > 0 ==> exp_term(0, n) == 0,
    decreases n,
{
    if n > 0 {
        lemma_exp_sum_at_zero((n - 1) as nat);
        let t = exp_term(0, (n - 1) as nat);
        let d: int = n * WAD;
        assert(t * 0 / d == 0) by (nonlinear_arith)
            requires
                d > 0,
        ;
    }
}

/// A principal times a factor of at least one, over one, is at least the principal.
pub proof fn lemma_scaled_up(principal: int, factor: int)
    requires
        0 <= principal,
        WAD <= factor,
    ensures
        principal * factor / (WAD as int) >= principal,
{
    assert(principal * factor >= principal * (WAD as int)) by (nonlinear_arith)
        requires
            0 <= principal,
            WAD <= factor,
    ;
    lemma_div_is_ordered(principal * (WAD as int), principal * factor, WAD as int);
    lemma_div_multiples_vanish(principal, WAD as int);
    assert(principal * (WAD as int) == (WAD as int) * principal) by (nonlinear_arith);
}

/// Over a span of no time an amount is what it was, at any rate.
pub proof fn law_accrue_zero_elapsed(principal: u64, rate: u64)
    ensures
        accrue_spec(principal, rate, 0) == Ok::<u64, ErrorCode>(principal),
{
    if principal != 0 {
        assert(rate * 0 == 0);
        lemma_exp_sum_at_zero(EXP_TERMS as nat);
        lemma_div_multiples_vanish(principal as int, WAD as int);
        assert(principal * (WAD as int) == (WAD as int) * principal) by (nonlinear_arith);
    }
}

/// At rate zero an amount is what it was, over any span that is not negative.
pub proof fn law_accrue_zero_rate(principal: u64, elapsed: int)
    requires
        elapsed >= 0,
    ensures
        accrue_spec(principal, 0, elapsed) == Ok::<u64, ErrorCode>(principal),
{
    if principal != 0 {
        assert(0 * elapsed == 0);
        lemma_exp_sum_at_zero(EXP_TERMS as nat);
        lemma_div_multiples_vanish(principal as int, WAD as int);
        assert(principal * (WAD as int) == (WAD as int) * principal) by (nonlinear_arith);
    }
}

/// Accrual never shrinks an amount, and gives zero only from zero.
pub proof fn lemma_accrue_grows(principal: u64, rate: u64, elapsed: int)
    ensures
        accrue_spec(principal, rate, elapsed) matches Ok(v) ==> v >= principal && (v == 0 <==> principal
            == 0),
{
    if elapsed >= 0 && principal != 0 && rate * elapsed <= MAX_EXPONENT {
        assert(rate * elapsed >= 0) by (nonlinear_arith)
            requires
                elapsed >= 0,
                rate >= 0,
        ;
        let x = rate * elapsed;
        lemma_exp_sum_bounds(x, EXP_TERMS as nat);
        lemma_scaled_up(principal as int, exp_wad(x));
    }
}

/// Each term of the series grows with the exponent.
pub proof fn lemma_exp_term_monotone(x: int, y: int, k: nat)
    requires
        0 <= x <= y,
    ensures
        0 <= exp_term(x, k) <= exp_term(y, k),
    decreases k,
{
    if k > 0 {
        lemma_exp_term_monotone(x, y, (k - 1) as nat);
        let a = exp_term(x, (k - 1) as nat);
        let b = exp_term(y, (k - 1) as nat);
        let d: int = k * WAD;
        assert(0 <= a * x <= b * y) by (nonlinear_arith)
            requires
                0 <= a <= b,
                0 <= x <= y,
        ;
        assert(d > 0) by (nonlinear_arith)
            requires
                k > 0,
                d == k * WAD,
        ;
        lemma_div_is_ordered(a * x, b * y, d);
        lemma_div_is_ordered(0, a * x, d);
    }
}

/// The growth factor grows with the exponent.
pub proof fn lemma_exp_sum_monotone(x: int, y: int, n: nat)
    requires
        0 <= x <= y,
    ensures
        exp_sum(x, n) <= exp_sum(y, n),
    decreases n,
{
    lemma_exp_term_monotone(x, y, n);
    if n > 0 {
        lemma_exp_sum_monotone(x, y, (n - 1) as nat);
    }
}

/// Compounding gives no less than simple interest: the factor for an
/// exponent is at least one plus that exponent.
pub proof fn law_growth_at_least_simple(x: int)
    requires
        0 <= x,
    ensures
        exp_wad(x) >= WAD + x,
{
    lemma_exp_sum_from_two_terms(x, EXP_TERMS as nat);
}

/// From the second term on, the partial sums hold at least the first two
/// terms, one and the exponent.
pub proof fn lemma_exp_sum_from_two_terms(x: int, n: nat)
    requires
        0 <= x,
        n >= 1,
    ensures
        exp_sum(x, n) >= WAD + x,
    decreases n,
{
    lemma_exp_term_monotone(0, x, n);
    if n == 1 {
        assert(exp_term(x, 0) == WAD);
        assert(exp_sum(x, 0) == WAD);
        assert((WAD as int) * x / (1 * WAD) == x) by (nonlinear_arith);
    } else {
        lemma_exp_sum_from_two_terms(x, (n - 1) as nat);
    }
}

/// More time never gives less: of two spans at one rate, the longer leaves
/// at least as much.
pub proof fn law_accrue_monotone_in_time(principal: u64, rate: u64, shorter: int, longer: int)
    requires
        0 <= shorter <= longer,
        accrue_spec(principal, rate, longer) is Ok,
    ensures
        accrue_spec(principal, rate, shorter) is Ok,
        accrue_spec(principal, rate, shorter)->Ok_0 <= accrue_spec(principal, rate, longer)->Ok_0,
{
    if principal != 0 {
        let x = rate * shorter;
        let y = rate * longer;
        assert(0 <= x <= y) by (nonlinear_arith)
            requires
                0 <= shorter <= longer,
                0 <= rate,
                x == rate * shorter,
                y == rate * longer,
        ;
        lemma_exp_sum_monotone(x, y, EXP_TERMS as nat);
        lemma_exp_sum_bounds(x, EXP_TERMS as nat);
        let p = principal as int;
        assert(0 <= p * exp_wad(x) <= p * exp_wad(y)) by (nonlinear_arith)
            requires
                0 <= p,
                0 <= exp_wad(x) <= exp_wad(y),
        ;
        lemma_div_is_ordered(p * exp_wad(x), p * exp_wad(y), WAD as int);
        lemma_div_is_ordered(0, p * exp_wad(x), WAD as int);
    }
}

/// The growth factor for an accepted exponent.
fn exp_factor(x: u128) -> (r: u128)
    requires
        x <= MAX_EXPONENT,
    ensures
        r == exp_wad(x as int),
{
    let mut term: u128 = WAD as u128;
    let mut sum: u128 = WAD as u128;
    let mut k: u64 = 0;
    while k < EXP_TERMS
        invariant
            k <= EXP_TERMS,
            x <= MAX_EXPONENT,
            term == exp_term(x as int, k as nat),
            sum == exp_sum(x as int, k as nat),
        decreases EXP_TERMS - k,
    {
        proof {
            lemma_exp_term_bound(x as int, k as nat);
            lemma_exp_sum_bounds(x as int, (k + 1) as nat);
            assert(term * x <= 2_000_000_000_000_000_000 * 2_000_000_000_000_000_000)
                by (nonlinear_arith)
                requires
                    0 <= term <= 2_000_000_000_000_000_000,
                    0 <= x <= 2_000_000_000_000_000_000,
            ;
            assert((k + 2) * MAX_EXPONENT <= 32 * MAX_EXPONENT) by (nonlinear_arith)
                requires
                    k + 2 <= 32,
            ;
            assert((k + 1) * WAD <= 30 * WAD) by (nonlinear_arith)
                requires
                    k + 1 <= 30,
            ;
        }
        k = k + 1;
        let divisor: u128 = (k as u128) * (WAD as u128);
        term = term * x / divisor;
        sum = sum + term;
    }
    sum
}

/// Growth of a positive or zero principal over a span given in whole seconds.
fn grow(principal: u64, rate: u64, elapsed: u64) -> (r: Result<u64, ErrorCode>)
    ensures
        r == accrue_spec(principal, rate, elapsed as int),
{
    if principal == 0 {
        return Ok(0);
    }
    proof {
        crate::math::lemma_product_fits(rate, elapsed);
    }
    let x: u128 = (rate as u128) * (elapsed as u128);
    if x > MAX_EXPONENT {
        return Err(ErrorCode::AccrualOverflow);
    }
    let factor: u128 = exp_factor(x);
    proof {
        lemma_exp_sum_bounds(x as int, EXP_TERMS as nat);
    }
    match (principal as u128).checked_mul(factor) {
        None => {
            proof {
                lemma_div_is_ordered(u128::MAX as int, principal * factor, WAD as int);
            }
            Err(ErrorCode::AccrualOverflow)
        },
        Some(wide) => {
            let grown: u128 = wide / (WAD as u128);
            if grown > u64::MAX as u128 {
                Err(ErrorCode::AccrualOverflow)
            } else {
                Ok(grown as u64)
            }
        },
    }
}

/// What `principal` has grown to after `elapsed` seconds at `rate`, compounded
/// continuously. A negative span fails with `InvalidTimeRange`; growth out of
/// range fails with `AccrualOverflow`.
pub fn accrue(principal: u64, rate: u64, elapsed: i64) -> (r: Result<u64, ErrorCode>)
    ensures
        r == accrue_spec(principal, rate, elapsed as int),
{
    if elapsed < 0 {
        return Err(ErrorCode::InvalidTimeRange);
    }
    grow(principal, rate, elapsed as u64)
}

/// What `deposited` has grown to between `last_updated` and `now`, both in
/// seconds on one clock, at `interest_rate`.
pub fn calculate_accrued_interest(deposited: u64, interest_rate: u64, last_updated: i64, now: i64) -> (r:
    Result<u64, ErrorCode>)
    ensures
        r == accrue_spec(deposited, interest_rate, now - last_updated),
{
    if now < last_updated {
        return Err(ErrorCode::InvalidTimeRange);
    }
    let span: i128 = (now as i128) - (last_updated as i128);
    grow(deposited, interest_rate, span as u64)
}

} // verus!
