//! Conversion between amounts and shares.
//!
//! Interest is added to a pool's total, never to each participant: a
//! participant's claim is a share count, worth `shares * total / total_shares`.
//! Every conversion rounds toward zero: a deposit never mints more shares
//! than its amount stands for.

use vstd::prelude::*;
use vstd::arithmetic::div_mod::*;
use crate::errors::ErrorCode;
use crate::math::{mul_div, mul_div_spec};
use crate::state::Bank;

verus! {

/// The two sides of a pool.
#[derive(Clone, Copy, Debug, PartialEq, Eq, Structural)]
pub enum Side {
    Deposit,
    Borrow,
}

impl Bank {
    /// The amount held on `side`.
    pub open spec fn total(self, side: Side) -> u64 {
        match side {
            Side::Deposit => self.total_deposited,
            Side::Borrow => self.total_borrowed,
        }
    }

    /// The shares issued on `side`.
    pub open spec fn total_shares(self, side: Side) -> u64 {
        match side {
            Side::Deposit => self.total_deposited_shares,
            Side::Borrow => self.total_borrowed_shares,
        }
    }
}

/// The shares that `amount` buys on a side holding `total` in `total_shares`
/// shares: one for one while no share exists, else in proportion.
pub open spec fn shares_for(total: u64, total_shares: u64, amount: u64) -> Result<u64, ErrorCode> {
    if total_shares == 0 {
        Ok(amount)
    } else {
        mul_div_spec(amount, total_shares, total)
    }
}

/// What `shares` are worth on a side holding `total` in `total_shares` shares.
pub open spec fn value_of(total: u64, total_shares: u64, shares: u64) -> Result<u64, ErrorCode> {
    mul_div_spec(shares, total, total_shares)
}

/// The deposit shares to mint for `amount`, at the pool's totals as they are.
pub fn deposit_shares_for(pool: &Bank, amount: u64) -> (r: Result<u64, ErrorCode>)
    ensures
        r == shares_for(pool.total_deposited, pool.total_deposited_shares, amount),
{
    if pool.total_deposited_shares == 0 {
        Ok(amount)
    } else {
        mul_div(amount, pool.total_deposited_shares, pool.total_deposited)
    }
}

/// The borrow shares to mint for `amount`, at the pool's totals as they are.
pub fn borrow_shares_for(pool: &Bank, amount: u64) -> (r: Result<u64, ErrorCode>)
    ensures
        r == shares_for(pool.total_borrowed, pool.total_borrowed_shares, amount),
{
    if pool.total_borrowed_shares == 0 {
        Ok(amount)
    } else {
        mul_div(amount, pool.total_borrowed_shares, pool.total_borrowed)
    }
}

/// What `shares` of `side` are worth. A side without shares has no share
/// value: `DivisionByZero`.
pub fn value_of_shares(pool: &Bank, shares: u64, side: Side) -> (r: Result<u64, ErrorCode>)
    ensures
        r == value_of(pool.total(side), pool.total_shares(side), shares),
{
    match side {
        Side::Deposit => mul_div(shares, pool.total_deposited, pool.total_deposited_shares),
        Side::Borrow => mul_div(shares, pool.total_borrowed, pool.total_borrowed_shares),
    }
}

/// The shares that stand for part of a side's total: never more than all of
/// them, all of them exactly for the whole total, and fewer for less.
pub proof fn lemma_part_of_shares(total: u64, total_shares: u64, amount: u64)
    requires
        total > 0,
        amount <= total,
    ensures
        mul_div_spec(amount, total_shares, total) matches Ok(delta) && delta <= total_shares && (amount
            == total ==> delta == total_shares) && (amount < total && total_shares > 0 ==> delta
            < total_shares),
{
    let t = total as int;
    let s = total_shares as int;
    let a = amount as int;
    let q = (a * s) / t;
    lemma_fundamental_div_mod(a * s, t);
    lemma_mod_bound(a * s, t);
    assert(0 <= q <= s && (a == t ==> q == s) && (a < t && s > 0 ==> q < s)) by (nonlinear_arith)
        requires
            a * s == t * q + (a * s) % t,
            0 <= (a * s) % t < t,
            0 <= a <= t,
            0 <= s,
            t > 0,
    ;
}

/// A holding of no more than all shares is worth no more than the total.
pub proof fn lemma_value_within_total(total: u64, total_shares: u64, held: u64)
    requires
        total_shares > 0,
        held <= total_shares,
    ensures
        value_of(total, total_shares, held) matches Ok(v) && v <= total,
{
    let t = total as int;
    let s = total_shares as int;
    let h = held as int;
    let v = (h * t) / s;
    lemma_fundamental_div_mod(h * t, s);
    lemma_mod_bound(h * t, s);
    assert(0 <= v <= t) by (nonlinear_arith)
        requires
            h * t == s * v + (h * t) % s,
            0 <= (h * t) % s < s,
            0 <= h <= s,
            0 <= t,
            s > 0,
    ;
}

/// Shares given up for an amount that the holder's shares are worth never
/// exceed what the holder has.
pub proof fn lemma_delta_within_holding(total: u64, total_shares: u64, held: u64, amount: u64)
    requires
        total > 0,
        total_shares > 0,
        value_of(total, total_shares, held) matches Ok(v) && amount <= v,
    ensures
        mul_div_spec(amount, total_shares, total) matches Ok(delta) && delta <= held,
{
    let t = total as int;
    let s = total_shares as int;
    let a = amount as int;
    let h = held as int;
    let v = (h * t) / s;
    let q = (a * s) / t;
    lemma_fundamental_div_mod(h * t, s);
    lemma_mod_bound(h * t, s);
    lemma_fundamental_div_mod(a * s, t);
    lemma_mod_bound(a * s, t);
    assert(0 <= q <= h) by (nonlinear_arith)
        requires
            h * t == s * v + (h * t) % s,
            0 <= (h * t) % s < s,
            a * s == t * q + (a * s) % t,
            0 <= (a * s) % t < t,
            0 <= a <= v,
            0 <= h,
            s > 0,
            t > 0,
    ;
}

/// Shares bought for an amount are worth that amount again, less what
/// rounding kept for the pool: never more, and short by less than one share's
/// worth and one unit. Where a share is worth no more than one unit, the
/// shortfall is at most one unit.
pub proof fn law_shares_keep_value(total: u64, total_shares: u64, amount: u64)
    requires
        total > 0,
        total_shares > 0,
        shares_for(total, total_shares, amount) is Ok,
    ensures
        value_of(total, total_shares, shares_for(total, total_shares, amount)->Ok_0) matches Ok(v) && v
            <= amount && (amount - v) * total_shares < total + total_shares,
        total <= total_shares ==> amount - value_of(
            total,
            total_shares,
            shares_for(total, total_shares, amount)->Ok_0,
        )->Ok_0 <= 1,
{
    let t = total as int;
    let s = total_shares as int;
    let a = amount as int;
    let m = (a * s) / t;
    let v = (m * t) / s;
    lemma_fundamental_div_mod(a * s, t);
    lemma_fundamental_div_mod(m * t, s);
    lemma_mod_bound(a * s, t);
    lemma_mod_bound(m * t, s);
    assert(m >= 0 && v >= 0 && v <= a && (a - v) * s < t + s) by (nonlinear_arith)
        requires
            a * s == t * m + (a * s) % t,
            m * t == s * v + (m * t) % s,
            0 <= (a * s) % t < t,
            0 <= (m * t) % s < s,
            a >= 0,
            s > 0,
            t > 0,
    ;
    assert(m == shares_for(total, total_shares, amount)->Ok_0);
    if total <= total_shares {
        assert(a - v <= 1) by (nonlinear_arith)
            requires
                (a - v) * s < t + s,
                t <= s,
                s > 0,
        ;
    }
}

} // verus!
