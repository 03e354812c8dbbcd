//! Withdraw: a depositor gives up shares and takes their value out of a pool.

use vstd::prelude::*;
use crate::errors::ErrorCode;
use crate::instructions::settlement::{checked_debit, debit, Direction, Settlement, Transfer};
use crate::math::{mul_div, mul_div_spec};
use crate::shares::{
    lemma_delta_within_holding, lemma_part_of_shares, lemma_value_within_total, value_of, value_of_shares,
    Side,
};
use crate::state::{Asset, Bank, Position, User};

verus! {

/// What a withdrawal reads: the mint that says which asset is meant, that
/// asset's pool, and the participant's position.
#[derive(Clone, Copy, Debug, PartialEq, Eq)]
pub struct Withdraw {
    pub mint: [u8; 32],
    pub bank: Bank,
    pub user_account: User,
}

/// The pool and the position after `amount` was withdrawn for `shares`;
/// `pool` is the pool with its interest already added.
pub open spec fn debit_deposit(pool: Bank, user: User, asset: Asset, amount: u64, shares: u64) -> Result<
    Settlement,
    ErrorCode,
> {
    let p = user.slot(asset);
    match (
        debit(pool.total_deposited, amount),
        debit(pool.total_deposited_shares, shares),
        debit(p.deposited, amount),
        debit(p.deposited_shares, shares),
    ) {
        (Ok(total), Ok(total_shares), Ok(deposited), Ok(deposited_shares)) => Ok(
            Settlement {
                bank: Bank { total_deposited: total, total_deposited_shares: total_shares, ..pool },
                user: user.with_slot(
                    asset,
                    Position { deposited: deposited, deposited_shares: deposited_shares, ..p },
                ),
                transfer: Transfer { direction: Direction::PoolToUser, amount: amount },
            },
        ),
        _ => Err(ErrorCode::ArithmeticOverflow),
    }
}

/// A withdrawal of `amount` at `now`.
///
/// Interest is added to the pool first. The participant may take out no more
/// than their deposit shares are then worth; the shares given up are
/// `amount` at the pool's share price, rounded toward zero.
pub open spec fn withdraw_spec(ctx: Withdraw, now: i64, amount: u64) -> Result<Settlement, ErrorCode> {
    let user = ctx.user_account;
    let asset = user.asset_of(ctx.mint@);
    match ctx.bank.accrued(now) {
        Err(e) => Err(e),
        Ok(pool) => match value_of(
            pool.total_deposited,
            pool.total_deposited_shares,
            user.slot(asset).deposited_shares,
        ) {
            Err(e) => Err(e),
            Ok(user_value) => if amount > user_value {
                Err(ErrorCode::InsufficientFunds)
            } else {
                match mul_div_spec(amount, pool.total_deposited_shares, pool.total_deposited) {
                    Err(e) => Err(e),
                    Ok(shares) => debit_deposit(pool, user, asset, amount, shares),
                }
            },
        },
    }
}

/// Authorises a withdrawal of `amount` at `now`.
///
/// The result holds both records as they will be and asks custody to move
/// `amount` from the pool to the participant. The records given are not
/// changed: see `commit`.
///
/// In a well-formed pool whose shares the participant's holding does not
/// exceed, a withdrawal within the worth of the holding and within the
/// recorded deposit succeeds once interest could be added.
pub fn process_withdraw(ctx: &Withdraw, now: i64, amount: u64) -> (r: Result<Settlement, ErrorCode>)
    ensures
        r == withdraw_spec(*ctx, now, amount),
        r matches Ok(s) ==> {
            let asset = ctx.user_account.asset_of(ctx.mint@);
            &&& (ctx.bank.well_formed() ==> s.bank.well_formed())
            &&& (ctx.user_account.within(ctx.bank, asset) ==> s.user.within(s.bank, asset))
            &&& s.user.slot(asset.other()) == ctx.user_account.slot(asset.other())
        },
        ({
            let p = ctx.user_account.slot(ctx.user_account.asset_of(ctx.mint@));
            &&& ctx.bank.well_formed()
            &&& p.deposited_shares <= ctx.bank.total_deposited_shares
            &&& ctx.bank.accrued(now) matches Ok(pool)
            &&& value_of(pool.total_deposited, pool.total_deposited_shares, p.deposited_shares) matches Ok(
                v,
            )
            &&& amount <= v
            &&& amount <= p.deposited
        }) ==> r is Ok,
{
    let bank: &Bank = &ctx.bank;
    let user: &User = &ctx.user_account;
    let pool: Bank = match bank.accrue_interest(now) {
        Ok(b) => b,
        Err(e) => { return Err(e); },
    };
    let asset: Asset = user.asset_for_mint(&ctx.mint);
    let p: Position = user.position(asset);
    let user_value: u64 = match value_of_shares(&pool, p.deposited_shares, Side::Deposit) {
        Ok(v) => v,
        Err(e) => { return Err(e); },
    };
    if amount > user_value {
        return Err(ErrorCode::InsufficientFunds);
    }
    proof {
        if bank.well_formed() {
            assert(pool.total_deposited_shares > 0);
            assert(pool.total_deposited > 0);
            lemma_delta_within_holding(
                pool.total_deposited,
                pool.total_deposited_shares,
                p.deposited_shares,
                amount,
            );
            if p.deposited_shares <= pool.total_deposited_shares {
                assert(user_value <= pool.total_deposited) by {
                    lemma_value_within_total(
                        pool.total_deposited,
                        pool.total_deposited_shares,
                        p.deposited_shares,
                    );
                }
            }
            if amount <= pool.total_deposited {
                lemma_part_of_shares(pool.total_deposited, pool.total_deposited_shares, amount);
            }
        }
    }
    let shares: u64 = match mul_div(amount, pool.total_deposited_shares, pool.total_deposited) {
        Ok(v) => v,
        Err(e) => { return Err(e); },
    };
    let total = checked_debit(pool.total_deposited, amount);
    let total_shares = checked_debit(pool.total_deposited_shares, shares);
    let deposited = checked_debit(p.deposited, amount);
    let deposited_shares = checked_debit(p.deposited_shares, shares);
    match (total, total_shares, deposited, deposited_shares) {
        (Ok(t), Ok(ts), Ok(d), Ok(ds)) => {
            let mut next_bank: Bank = pool;
            next_bank.total_deposited = t;
            next_bank.total_deposited_shares = ts;
            let next_user: User = user.with_position(
                asset,
                Position {
                    deposited: d,
                    deposited_shares: ds,
                    borrowed: p.borrowed,
                    borrowed_shares: p.borrowed_shares,
                },
            );
            Ok(
                Settlement {
                    bank: next_bank,
                    user: next_user,
                    transfer: Transfer { direction: Direction::PoolToUser, amount: amount },
                },
            )
        },
        _ => Err(ErrorCode::ArithmeticOverflow),
    }
}

} // verus!
