//! Deposit: value enters a pool and the depositor is given shares.

use vstd::prelude::*;
use crate::errors::ErrorCode;
use crate::instructions::settlement::{checked_credit, credit, Direction, Settlement, Transfer};
use crate::shares::{deposit_shares_for, shares_for};
use crate::state::{Asset, Bank, Position, User};

verus! {

/// What a deposit reads: the mint that says which asset is meant, that
/// asset's pool, and the participant's position.
#[derive(Clone, Copy, Debug, PartialEq, Eq)]
pub struct Deposit {
    pub mint: [u8; 32],
    pub bank: Bank,
    pub user_account: User,
}

/// The pool and the position after `amount` was deposited for `shares`, at
/// `now`; `pool` is the pool with its interest already added.
pub open spec fn credit_deposit(pool: Bank, user: User, asset: Asset, now: i64, amount: u64, shares: u64) -> Result<
    Settlement,
    ErrorCode,
> {
    let p = user.slot(asset);
    match (
        credit(pool.total_deposited, amount),
        credit(pool.total_deposited_shares, shares),
        credit(p.deposited, amount),
        credit(p.deposited_shares, shares),
    ) {
        (Ok(total), Ok(total_shares), Ok(deposited), Ok(deposited_shares)) => Ok(
            Settlement {
                bank: Bank { total_deposited: total, total_deposited_shares: total_shares, ..pool },
                user: User {
                    last_updated: now,
                    ..user.with_slot(
                        asset,
                        Position { deposited: deposited, deposited_shares: deposited_shares, ..p },
                    )
                },
                transfer: Transfer { direction: Direction::UserToPool, amount: amount },
            },
        ),
        _ => Err(ErrorCode::ArithmeticOverflow),
    }
}

/// A deposit of `amount` at `now`.
///
/// Nothing may be deposited of nothing. Interest is added to the pool first;
/// shares are then priced at the pool's totals before the deposit.
pub open spec fn deposit_spec(ctx: Deposit, now: i64, amount: u64) -> Result<Settlement, ErrorCode> {
    if amount == 0 {
        Err(ErrorCode::InvalidAmount)
    } else {
        match ctx.bank.accrued(now) {
            Err(e) => Err(e),
            Ok(pool) => match shares_for(pool.total_deposited, pool.total_deposited_shares, amount) {
                Err(e) => Err(e),
                Ok(shares) => credit_deposit(
                    pool,
                    ctx.user_account,
                    ctx.user_account.asset_of(ctx.mint@),
                    now,
                    amount,
                    shares,
                ),
            },
        }
    }
}

/// Authorises a deposit of `amount` at `now`.
///
/// The result holds both records as they will be and asks custody to move
/// `amount` from the participant to the pool. The records given are not
/// changed: see `commit`.
pub fn process_deposit(ctx: &Deposit, now: i64, amount: u64) -> (r: Result<Settlement, ErrorCode>)
    ensures
        r == deposit_spec(*ctx, now, amount),
        r matches Ok(s) ==> {
            let asset = ctx.user_account.asset_of(ctx.mint@);
            &&& (ctx.bank.well_formed() ==> s.bank.well_formed())
            &&& (ctx.user_account.within(ctx.bank, asset) ==> s.user.within(s.bank, asset))
            &&& s.user.slot(asset.other()) == ctx.user_account.slot(asset.other())
        },
{
    let bank: &Bank = &ctx.bank;
    let user: &User = &ctx.user_account;
    if amount == 0 {
        return Err(ErrorCode::InvalidAmount);
    }
    let pool: Bank = match bank.accrue_interest(now) {
        Ok(b) => b,
        Err(e) => { return Err(e); },
    };
    let shares: u64 = match deposit_shares_for(&pool, amount) {
        Ok(v) => v,
        Err(e) => { return Err(e); },
    };
    let asset: Asset = user.asset_for_mint(&ctx.mint);
    let p: Position = user.position(asset);
    let total = checked_credit(pool.total_deposited, amount);
    let total_shares = checked_credit(pool.total_deposited_shares, shares);
    let deposited = checked_credit(p.deposited, amount);
    let deposited_shares = checked_credit(p.deposited_shares, shares);
    match (total, total_shares, deposited, deposited_shares) {
        (Ok(t), Ok(ts), Ok(d), Ok(ds)) => {
            let mut next_bank: Bank = pool;
            next_bank.total_deposited = t;
            next_bank.total_deposited_shares = ts;
            let mut next_user: User = user.with_position(
                asset,
                Position {
                    deposited: d,
                    deposited_shares: ds,
                    borrowed: p.borrowed,
                    borrowed_shares: p.borrowed_shares,
                },
            );
            next_user.last_updated = now;
            Ok(
                Settlement {
                    bank: next_bank,
                    user: next_user,
                    transfer: Transfer { direction: Direction::UserToPool, amount: amount },
                },
            )
        },
        _ => Err(ErrorCode::ArithmeticOverflow),
    }
}

} // verus!
