//! Borrow: value leaves a pool against collateral held in another.

use vstd::prelude::*;
use crate::errors::ErrorCode;
use crate::instructions::settlement::{checked_credit, credit, Direction, Settlement, Transfer};
use crate::interest::{accrue_spec, calculate_accrued_interest};
use crate::oracle::{
    borrowable, borrowable_spec, collateral_value, collateral_value_spec, oracle_price, price_at,
    OracleConfig, Price, PriceUpdate,
};
use crate::shares::{borrow_shares_for, shares_for};
use crate::state::{other_asset, Asset, Bank, Position, User};

verus! {

/// What a borrow reads: the mint that says which asset is borrowed, that
/// asset's pool, the pool of the other asset, in which the collateral lies,
/// the participant's position, and the oracle's posted price update.
#[derive(Clone, Copy, Debug, PartialEq, Eq)]
pub struct Borrow {
    pub mint: [u8; 32],
    pub bank: Bank,
    pub collateral_bank: Bank,
    pub user_account: User,
    pub price_update: PriceUpdate,
}

impl Borrow {
    /// The asset that is borrowed.
    pub open spec fn asset(self) -> Asset {
        self.user_account.asset_of(self.mint@)
    }

    /// The asset that stands as collateral: the one that is not borrowed.
    pub open spec fn collateral(self) -> Asset {
        self.asset().other()
    }
}

/// The most that may be borrowed at `now`.
///
/// The deposit recorded in the collateral asset is brought up to `now` at the
/// collateral pool's rate, valued at the oracle's price of that asset, and
/// cut to the borrowed pool's liquidation threshold.
pub open spec fn borrow_limit_spec(ctx: Borrow, config: OracleConfig, now: i64) -> Result<int, ErrorCode> {
    match price_at(config, ctx.price_update, ctx.collateral(), now) {
        Err(e) => Err(e),
        Ok(price) => match accrue_spec(
            ctx.user_account.slot(ctx.collateral()).deposited,
            ctx.collateral_bank.interest_rate,
            now - ctx.user_account.last_updated,
        ) {
            Err(e) => Err(e),
            Ok(deposit) => match collateral_value_spec(deposit, price) {
                Err(e) => Err(e),
                Ok(value) => Ok(borrowable_spec(value, ctx.bank.liquidation_threshold)),
            },
        },
    }
}

/// The pool and the position after `amount` was borrowed for `shares`, at
/// `now`; `pool` is the pool with its interest already added.
pub open spec fn credit_borrow(pool: Bank, user: User, asset: Asset, now: i64, amount: u64, shares: u64) -> Result<
    Settlement,
    ErrorCode,
> {
    let p = user.slot(asset);
    match (
        credit(pool.total_borrowed, amount),
        credit(pool.total_borrowed_shares, shares),
        credit(p.borrowed, amount),
        credit(p.borrowed_shares, shares),
    ) {
        (Ok(total), Ok(total_shares), Ok(borrowed), Ok(borrowed_shares)) => Ok(
            Settlement {
                bank: Bank { total_borrowed: total, total_borrowed_shares: total_shares, ..pool },
                user: User {
                    last_updated_borrow: now,
                    ..user.with_slot(
                        asset,
                        Position { borrowed: borrowed, borrowed_shares: borrowed_shares, ..p },
                    )
                },
                transfer: Transfer { direction: Direction::PoolToUser, amount: amount },
            },
        ),
        _ => Err(ErrorCode::ArithmeticOverflow),
    }
}

/// The booking of a borrow that the collateral allows: interest is added to
/// the pool, then borrow shares are priced at the pool's totals before the
/// borrow.
pub open spec fn book_borrow(bank: Bank, user: User, asset: Asset, now: i64, amount: u64) -> Result<
    Settlement,
    ErrorCode,
> {
    match bank.accrued(now) {
        Err(e) => Err(e),
        Ok(pool) => match shares_for(pool.total_borrowed, pool.total_borrowed_shares, amount) {
            Err(e) => Err(e),
            Ok(shares) => credit_borrow(pool, user, asset, now, amount, shares),
        },
    }
}

/// A borrow of `amount` at `now`.
///
/// Nothing may be borrowed of nothing, and no more than the limit that the
/// collateral gives.
pub open spec fn borrow_spec(ctx: Borrow, config: OracleConfig, now: i64, amount: u64) -> Result<
    Settlement,
    ErrorCode,
> {
    if amount == 0 {
        Err(ErrorCode::InvalidAmount)
    } else {
        match borrow_limit_spec(ctx, config, now) {
            Err(e) => Err(e),
            Ok(limit) => if amount > limit {
                Err(ErrorCode::OverTheBorrowableAmount)
            } else {
                book_borrow(ctx.bank, ctx.user_account, ctx.asset(), now, amount)
            },
        }
    }
}

/// The most that may be borrowed at `now` against the collateral. Fails with
/// `StalePrice` where the oracle has no usable price of the collateral.
pub fn borrow_limit(ctx: &Borrow, config: &OracleConfig, now: i64) -> (r: Result<u128, ErrorCode>)
    ensures
        match borrow_limit_spec(*ctx, *config, now) {
            Ok(limit) => r == Ok::<u128, ErrorCode>(limit as u128) && 0 <= limit <= u128::MAX,
            Err(e) => r == Err::<u128, ErrorCode>(e),
        },
{
    let user: &User = &ctx.user_account;
    let collateral: Asset = other_asset(user.asset_for_mint(&ctx.mint));
    let price: Price = match oracle_price(config, &ctx.price_update, collateral, now) {
        Ok(p) => p,
        Err(e) => { return Err(e); },
    };
    let deposit: u64 = match calculate_accrued_interest(
        user.position(collateral).deposited,
        ctx.collateral_bank.interest_rate,
        user.last_updated,
        now,
    ) {
        Ok(v) => v,
        Err(e) => { return Err(e); },
    };
    let value: u64 = match collateral_value(deposit, &price) {
        Ok(v) => v,
        Err(e) => { return Err(e); },
    };
    Ok(borrowable(value, ctx.bank.liquidation_threshold))
}

/// Authorises a borrow of `amount` at `now`, against what the participant
/// holds in the other asset, priced by the posted update.
///
/// The result holds both records as they will be and asks custody to move
/// `amount` from the pool to the participant. The records given are not
/// changed: see `commit`.
///
/// Once the limit is known, an amount above it is always refused with
/// `OverTheBorrowableAmount`, and an amount within it never is. Whether the
/// treasury holds the amount is for custody to tell.
pub fn process_borrow(ctx: &Borrow, config: &OracleConfig, now: i64, amount: u64) -> (r: Result<
    Settlement,
    ErrorCode,
>)
    ensures
        r == borrow_spec(*ctx, *config, now, amount),
        borrow_limit_spec(*ctx, *config, now) matches Ok(limit) ==> {
            &&& (amount > limit ==> r == Err::<Settlement, ErrorCode>(
                ErrorCode::OverTheBorrowableAmount,
            ))
            &&& (0 < amount <= limit ==> r == book_borrow(
                ctx.bank,
                ctx.user_account,
                ctx.asset(),
                now,
                amount,
            ) && r != Err::<Settlement, ErrorCode>(ErrorCode::OverTheBorrowableAmount))
        },
        r matches Ok(s) ==> {
            let user = ctx.user_account;
            &&& (ctx.bank.well_formed() ==> s.bank.well_formed())
            &&& (user.within(ctx.bank, ctx.asset()) ==> s.user.within(s.bank, ctx.asset()))
            &&& s.user.slot(ctx.collateral()) == user.slot(ctx.collateral())
        },
{
    if amount == 0 {
        return Err(ErrorCode::InvalidAmount);
    }
    let limit: u128 = match borrow_limit(ctx, config, now) {
        Ok(v) => v,
        Err(e) => { return Err(e); },
    };
    if amount as u128 > limit {
        return Err(ErrorCode::OverTheBorrowableAmount);
    }
    let user: &User = &ctx.user_account;
    let pool: Bank = match ctx.bank.accrue_interest(now) {
        Ok(b) => b,
        Err(e) => { return Err(e); },
    };
    let shares: u64 = match borrow_shares_for(&pool, amount) {
        Ok(v) => v,
        Err(e) => { return Err(e); },
    };
    let asset: Asset = user.asset_for_mint(&ctx.mint);
    let p: Position = user.position(asset);
    let total = checked_credit(pool.total_borrowed, amount);
    let total_shares = checked_credit(pool.total_borrowed_shares, shares);
    let borrowed = checked_credit(p.borrowed, amount);
    let borrowed_shares = checked_credit(p.borrowed_shares, shares);
    match (total, total_shares, borrowed, borrowed_shares) {
        (Ok(t), Ok(ts), Ok(b), Ok(bs)) => {
            let mut next_bank: Bank = pool;
            next_bank.total_borrowed = t;
            next_bank.total_borrowed_shares = ts;
            let mut next_user: User = user.with_position(
                asset,
                Position {
                    deposited: p.deposited,
                    deposited_shares: p.deposited_shares,
                    borrowed: b,
                    borrowed_shares: bs,
                },
            );
            next_user.last_updated_borrow = now;
            Ok(
                Settlement {
                    bank: next_bank,
                    user: next_user,
                    transfer: Transfer { direction: Direction::PoolToUser, amount: amount },
                },
            )
        },
        _ => Err(ErrorCode::ArithmeticOverflow),
    }
}

} // verus!
