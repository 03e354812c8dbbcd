//! Repay: a borrower returns value to a pool and gives up borrow shares.

use vstd::prelude::*;
use crate::errors::ErrorCode;
use crate::instructions::settlement::{checked_debit, debit, Direction, Settlement, Transfer};
use crate::math::{mul_div, mul_div_spec};
use crate::shares::lemma_part_of_shares;
use crate::state::{Asset, Bank, Position, User};

verus! {

/// What a repayment reads: the mint that says which asset is meant, that
/// asset's pool, and the participant's position.
#[derive(Clone, Copy, Debug, PartialEq, Eq)]
pub struct Repay {
    pub mint: [u8; 32],
    pub bank: Bank,
    pub user_account: User,
}

/// The pool and the position after `amount` was repaid for `shares`; `pool`
/// is the pool with its interest already added.
pub open spec fn debit_borrow(pool: Bank, user: User, asset: Asset, amount: u64, shares: u64) -> Result<
    Settlement,
    ErrorCode,
> {
    let p = user.slot(asset);
    match (
        debit(pool.total_borrowed, amount),
        debit(pool.total_borrowed_shares, shares),
        debit(p.borrowed, amount),
        debit(p.borrowed_shares, shares),
    ) {
        (Ok(total), Ok(total_shares), Ok(borrowed), Ok(borrowed_shares)) => Ok(
            Settlement {
                bank: Bank { total_borrowed: total, total_borrowed_shares: total_shares, ..pool },
                user: user.with_slot(
                    asset,
                    Position { borrowed: borrowed, borrowed_shares: borrowed_shares, ..p },
                ),
                transfer: Transfer { direction: Direction::UserToPool, amount: amount },
            },
        ),
        _ => Err(ErrorCode::ArithmeticOverflow),
    }
}

/// A repayment of `amount` at `now`.
///
/// The amount must be positive and no more than is recorded as borrowed.
/// Interest is added to the pool first; the shares given up are `amount` at
/// the borrow side's share price before the repayment, rounded toward zero.
pub open spec fn repay_spec(ctx: Repay, now: i64, amount: u64) -> Result<Settlement, ErrorCode> {
    let user = ctx.user_account;
    let asset = user.asset_of(ctx.mint@);
    if amount == 0 || amount > user.slot(asset).borrowed {
        Err(ErrorCode::InsufficientRepayAmount)
    } else {
        match ctx.bank.accrued(now) {
            Err(e) => Err(e),
            Ok(pool) => match mul_div_spec(amount, pool.total_borrowed_shares, pool.total_borrowed) {
                Err(e) => Err(e),
                Ok(shares) => debit_borrow(pool, user, asset, amount, shares),
            },
        }
    }
}

/// Authorises a repayment of `amount` at `now`.
///
/// The result holds both records as they will be and asks custody to move
/// `amount` from the participant to the pool. The records given are not
/// changed: see `commit`.
///
/// More than is recorded as borrowed is always refused. Repaying exactly what
/// is recorded leaves nothing recorded as borrowed.
pub fn proccess_repay(ctx: &Repay, now: i64, amount: u64) -> (r: Result<Settlement, ErrorCode>)
    ensures
        r == repay_spec(*ctx, now, amount),
        amount > ctx.user_account.slot(ctx.user_account.asset_of(ctx.mint@)).borrowed ==> r == Err::<
            Settlement,
            ErrorCode,
        >(ErrorCode::InsufficientRepayAmount),
        r matches Ok(s) ==> {
            let user = ctx.user_account;
            let asset = user.asset_of(ctx.mint@);
            &&& (ctx.bank.well_formed() ==> s.bank.well_formed())
            &&& (user.within(ctx.bank, asset) ==> s.user.within(s.bank, asset))
            &&& s.user.slot(asset.other()) == user.slot(asset.other())
            &&& s.user.slot(asset).borrowed == user.slot(asset).borrowed - amount
            &&& (amount == user.slot(asset).borrowed ==> s.user.slot(asset).borrowed == 0)
        },
{
    let bank: &Bank = &ctx.bank;
    let user: &User = &ctx.user_account;
    let asset: Asset = user.asset_for_mint(&ctx.mint);
    let p: Position = user.position(asset);
    if amount == 0 || amount > p.borrowed {
        return Err(ErrorCode::InsufficientRepayAmount);
    }
    let pool: Bank = match bank.accrue_interest(now) {
        Ok(b) => b,
        Err(e) => { return Err(e); },
    };
    let shares: u64 = match mul_div(amount, pool.total_borrowed_shares, pool.total_borrowed) {
        Ok(v) => v,
        Err(e) => { return Err(e); },
    };
    proof {
        if amount <= pool.total_borrowed {
            lemma_part_of_shares(pool.total_borrowed, pool.total_borrowed_shares, amount);
        }
    }
    let total = checked_debit(pool.total_borrowed, amount);
    let total_shares = checked_debit(pool.total_borrowed_shares, shares);
    let borrowed = checked_debit(p.borrowed, amount);
    let borrowed_shares = checked_debit(p.borrowed_shares, shares);
    match (total, total_shares, borrowed, borrowed_shares) {
        (Ok(t), Ok(ts), Ok(b), Ok(bs)) => {
            let mut next_bank: Bank = pool;
            next_bank.total_borrowed = t;
            next_bank.total_borrowed_shares = ts;
            let next_user: User = user.with_position(
                asset,
                Position {
                    deposited: p.deposited,
                    deposited_shares: p.deposited_shares,
                    borrowed: b,
                    borrowed_shares: bs,
                },
            );
            Ok(
                Settlement {
                    bank: next_bank,
                    user: next_user,
                    transfer: Transfer { direction: Direction::UserToPool, amount: amount },
                },
            )
        },
        _ => Err(ErrorCode::ArithmeticOverflow),
    }
}

} // verus!
