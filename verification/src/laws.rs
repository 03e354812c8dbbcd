//! What holds of the ledger across its operations.

use vstd::prelude::*;
use vstd::arithmetic::div_mod::*;
use crate::errors::ErrorCode;
use crate::instructions::borrow::{book_borrow, borrow_limit_spec, borrow_spec, Borrow};
use crate::instructions::deposit::{deposit_spec, Deposit};
use crate::instructions::repay::{repay_spec, Repay};
use crate::instructions::settlement::{Direction, Settlement, Transfer};
use crate::instructions::withdraw::{withdraw_spec, Withdraw};
use crate::interest::{law_accrue_zero_elapsed, lemma_accrue_grows};
use crate::math::mul_div_spec;
use crate::oracle::OracleConfig;
use crate::shares::{lemma_part_of_shares, lemma_value_within_total, shares_for, value_of};
use crate::state::{Bank, User};

verus! {

/// Adding interest keeps a pool well formed: value grows only where there is
/// value, and share counts stay.
pub proof fn law_accrual_keeps_pool_well_formed(bank: Bank, now: i64)
    requires
        bank.well_formed(),
        bank.accrued(now) is Ok,
    ensures
        bank.accrued(now)->Ok_0.well_formed(),
        bank.accrued(now)->Ok_0.total_deposited_shares == bank.total_deposited_shares,
        bank.accrued(now)->Ok_0.total_borrowed_shares == bank.total_borrowed_shares,
        bank.accrued(now)->Ok_0.total_deposited >= bank.total_deposited,
        bank.accrued(now)->Ok_0.total_borrowed >= bank.total_borrowed,
{
    lemma_accrue_grows(bank.total_deposited, bank.interest_rate, now - bank.last_updated);
    lemma_accrue_grows(bank.total_borrowed, bank.interest_rate, now - bank.last_updated);
}

/// Interest never lowers what a holding is worth: the total grows and the
/// share count stays.
pub proof fn law_share_value_never_falls_with_interest(bank: Bank, now: i64, shares: u64)
    requires
        bank.accrued(now) is Ok,
        value_of(
            bank.accrued(now)->Ok_0.total_deposited,
            bank.accrued(now)->Ok_0.total_deposited_shares,
            shares,
        ) is Ok,
        bank.total_deposited_shares > 0,
    ensures
        value_of(bank.total_deposited, bank.total_deposited_shares, shares) is Ok,
        value_of(bank.total_deposited, bank.total_deposited_shares, shares)->Ok_0 <= value_of(
            bank.accrued(now)->Ok_0.total_deposited,
            bank.accrued(now)->Ok_0.total_deposited_shares,
            shares,
        )->Ok_0,
{
    lemma_accrue_grows(bank.total_deposited, bank.interest_rate, now - bank.last_updated);
    lemma_accrue_grows(bank.total_borrowed, bank.interest_rate, now - bank.last_updated);
    let pool = bank.accrued(now)->Ok_0;
    let h = shares as int;
    let t1 = bank.total_deposited as int;
    let t2 = pool.total_deposited as int;
    let s = bank.total_deposited_shares as int;
    assert(0 <= h * t1 <= h * t2) by (nonlinear_arith)
        requires
            0 <= h,
            0 <= t1 <= t2,
    ;
    lemma_div_is_ordered(h * t1, h * t2, s);
    lemma_div_is_ordered(0, h * t1, s);
}

/// Adding interest over no time changes nothing.
pub proof fn law_accrual_at_same_time(bank: Bank)
    ensures
        bank.accrued(bank.last_updated) == Ok::<Bank, ErrorCode>(bank),
{
    law_accrue_zero_elapsed(bank.total_deposited, bank.interest_rate);
    law_accrue_zero_elapsed(bank.total_borrowed, bank.interest_rate);
}

/// Every operation leaves a well-formed pool well formed: on each side,
/// shares exist exactly when value is held.
pub proof fn law_operations_keep_pool_well_formed(
    mint: [u8; 32],
    bank: Bank,
    user: User,
    borrow: Borrow,
    config: OracleConfig,
    now: i64,
    amount: u64,
)
    requires
        bank.well_formed(),
        borrow.bank.well_formed(),
    ensures
        deposit_spec(Deposit { mint: mint, bank: bank, user_account: user }, now, amount) matches Ok(s)
            ==> s.bank.well_formed(),
        withdraw_spec(Withdraw { mint: mint, bank: bank, user_account: user }, now, amount) matches Ok(s)
            ==> s.bank.well_formed(),
        repay_spec(Repay { mint: mint, bank: bank, user_account: user }, now, amount) matches Ok(s)
            ==> s.bank.well_formed(),
        borrow_spec(borrow, config, now, amount) matches Ok(s) ==> s.bank.well_formed(),
{
    if bank.accrued(now) is Ok {
        law_accrual_keeps_pool_well_formed(bank, now);
        let pool = bank.accrued(now)->Ok_0;
        if withdraw_spec(Withdraw { mint: mint, bank: bank, user_account: user }, now, amount) is Ok {
            lemma_part_of_shares(pool.total_deposited, pool.total_deposited_shares, amount);
        }
        if repay_spec(Repay { mint: mint, bank: bank, user_account: user }, now, amount) is Ok {
            lemma_part_of_shares(pool.total_borrowed, pool.total_borrowed_shares, amount);
        }
    }
    if borrow.bank.accrued(now) is Ok {
        law_accrual_keeps_pool_well_formed(borrow.bank, now);
    }
}

/// Every operation keeps a participant's shares within what the pool has
/// issued, and leaves the participant's other asset alone.
pub proof fn law_operations_keep_position_within_pool(
    mint: [u8; 32],
    bank: Bank,
    user: User,
    borrow: Borrow,
    config: OracleConfig,
    now: i64,
    amount: u64,
)
    requires
        user.within(bank, user.asset_of(mint@)),
        borrow.user_account.within(borrow.bank, borrow.asset()),
    ensures
        ({
            let asset = user.asset_of(mint@);
            &&& deposit_spec(Deposit { mint: mint, bank: bank, user_account: user }, now, amount) matches Ok(
                s,
            ) ==> s.user.within(s.bank, asset) && s.user.slot(asset.other()) == user.slot(asset.other())
            &&& withdraw_spec(Withdraw { mint: mint, bank: bank, user_account: user }, now, amount) matches Ok(
                s,
            ) ==> s.user.within(s.bank, asset) && s.user.slot(asset.other()) == user.slot(asset.other())
            &&& repay_spec(Repay { mint: mint, bank: bank, user_account: user }, now, amount) matches Ok(s)
                ==> s.user.within(s.bank, asset) && s.user.slot(asset.other()) == user.slot(asset.other())
            &&& borrow_spec(borrow, config, now, amount) matches Ok(s) ==> s.user.within(
                s.bank,
                borrow.asset(),
            ) && s.user.slot(borrow.collateral()) == borrow.user_account.slot(borrow.collateral())
        }),
{
}

/// The collateral limit decides a borrow: once the limit is known, an amount
/// above it is refused with `OverTheBorrowableAmount`; an amount within it is
/// booked, and fails only where the booking itself does.
pub proof fn law_borrow_bounded_by_limit(ctx: Borrow, config: OracleConfig, now: i64, amount: u64)
    requires
        borrow_limit_spec(ctx, config, now) is Ok,
    ensures
        ({
            let limit = borrow_limit_spec(ctx, config, now)->Ok_0;
            let r = borrow_spec(ctx, config, now, amount);
            &&& amount > limit ==> r == Err::<Settlement, ErrorCode>(ErrorCode::OverTheBorrowableAmount)
            &&& 0 < amount <= limit ==> r == book_borrow(
                ctx.bank,
                ctx.user_account,
                ctx.asset(),
                now,
                amount,
            )
            &&& amount <= limit ==> r != Err::<Settlement, ErrorCode>(ErrorCode::OverTheBorrowableAmount)
            &&& r matches Ok(s) ==> s.transfer == (Transfer {
                direction: Direction::PoolToUser,
                amount: amount,
            }) && s.user.slot(ctx.asset()).borrowed == ctx.user_account.slot(ctx.asset()).borrowed
                + amount
        }),
{
}

/// Repaying more than is recorded as borrowed is refused. Repaying exactly
/// what is recorded leaves nothing recorded as borrowed; it leaves no borrow
/// shares either where the shares held are what that amount stands for at
/// the pool's share price.
pub proof fn law_repay_in_full(ctx: Repay, now: i64, amount: u64)
    ensures
        ({
            let asset = ctx.user_account.asset_of(ctx.mint@);
            let p = ctx.user_account.slot(asset);
            let r = repay_spec(ctx, now, amount);
            &&& amount > p.borrowed ==> r == Err::<Settlement, ErrorCode>(
                ErrorCode::InsufficientRepayAmount,
            )
            &&& amount == p.borrowed && r is Ok ==> r->Ok_0.user.slot(asset).borrowed == 0
            &&& amount == p.borrowed && r is Ok && mul_div_spec(
                amount,
                ctx.bank.accrued(now)->Ok_0.total_borrowed_shares,
                ctx.bank.accrued(now)->Ok_0.total_borrowed,
            ) == Ok::<u64, ErrorCode>(p.borrowed_shares) ==> r->Ok_0.user.slot(asset).borrowed_shares == 0
        }),
{
}

/// A borrower who holds all of a pool's debt and repays all of it leaves the
/// pool's borrow side and their own empty.
pub proof fn law_repay_sole_debt(ctx: Repay, now: i64)
    requires
        ctx.bank.well_formed(),
        ctx.bank.accrued(now) is Ok,
        ({
            let p = ctx.user_account.slot(ctx.user_account.asset_of(ctx.mint@));
            let pool = ctx.bank.accrued(now)->Ok_0;
            &&& p.borrowed > 0
            &&& p.borrowed == pool.total_borrowed
            &&& p.borrowed_shares == pool.total_borrowed_shares
        }),
    ensures
        ({
            let asset = ctx.user_account.asset_of(ctx.mint@);
            let r = repay_spec(ctx, now, ctx.user_account.slot(asset).borrowed);
            &&& r is Ok
            &&& r->Ok_0.user.slot(asset).borrowed == 0
            &&& r->Ok_0.user.slot(asset).borrowed_shares == 0
            &&& r->Ok_0.bank.total_borrowed == 0
            &&& r->Ok_0.bank.total_borrowed_shares == 0
        }),
{
    law_accrual_keeps_pool_well_formed(ctx.bank, now);
    let pool = ctx.bank.accrued(now)->Ok_0;
    lemma_part_of_shares(pool.total_borrowed, pool.total_borrowed_shares, pool.total_borrowed);
}

/// The shares minted for an amount are the shares that the same amount
/// stands for right after: `a * (S + m) / (T + a)` is `m` again, where `m` is
/// `a * S / T` or, in a pool without shares or value, `a` itself.
pub proof fn lemma_minted_shares_return(total: u64, total_shares: u64, amount: u64, minted: u64)
    requires
        amount > 0,
        total + amount <= u64::MAX,
        total_shares + minted <= u64::MAX,
        total_shares == 0 <==> total == 0,
        shares_for(total, total_shares, amount) == Ok::<u64, ErrorCode>(minted),
    ensures
        mul_div_spec(amount, (total_shares + minted) as u64, (total + amount) as u64) == Ok::<
            u64,
            ErrorCode,
        >(minted),
        total_shares == 0 || (amount * total_shares) % (total as int) == 0 ==> minted * (total + amount)
            == amount * (total_shares + minted),
        0 <= amount * (total_shares + minted) - minted * (total + amount) <= total,
{
    let t = total as int;
    let s = total_shares as int;
    let a = amount as int;
    let m = minted as int;
    if total_shares == 0 {
        assert(m == a);
        assert(a * (s + m) == a * a) by (nonlinear_arith)
            requires
                s == 0,
                m == a,
        ;
        lemma_div_multiples_vanish(a, a);
        assert(m * (t + a) == a * (s + m)) by (nonlinear_arith)
            requires
                s == 0,
                t == 0,
                m == a,
        ;
    } else {
        lemma_fundamental_div_mod(a * s, t);
        lemma_mod_bound(a * s, t);
        let r = (a * s) % t;
        assert(a * (s + m) == m * (t + a) + r) by (nonlinear_arith)
            requires
                a * s == t * m + r,
        ;
        lemma_fundamental_div_mod_converse(a * (s + m), t + a, m, r);
    }
}

/// Right after a deposit, the shares it minted are worth the amount
/// deposited, less what rounding kept for the pool: never more, and short by
/// less than one share's worth and one unit. The first deposit into an empty
/// pool is worth the amount exactly.
pub proof fn law_deposit_worth_its_shares(ctx: Deposit, now: i64, amount: u64)
    requires
        ctx.bank.well_formed(),
        deposit_spec(ctx, now, amount) is Ok,
    ensures
        ({
            let pool = ctx.bank.accrued(now)->Ok_0;
            let after = deposit_spec(ctx, now, amount)->Ok_0.bank;
            let minted = (after.total_deposited_shares - pool.total_deposited_shares) as u64;
            let worth = value_of(after.total_deposited, after.total_deposited_shares, minted);
            &&& shares_for(pool.total_deposited, pool.total_deposited_shares, amount) == Ok::<
                u64,
                ErrorCode,
            >(minted)
            &&& worth is Ok
            &&& worth->Ok_0 <= amount
            &&& (amount - worth->Ok_0) * after.total_deposited_shares < after.total_deposited
                + after.total_deposited_shares
            &&& pool.total_deposited_shares == 0 ==> worth->Ok_0 == amount
        }),
{
    law_accrual_keeps_pool_well_formed(ctx.bank, now);
    let pool = ctx.bank.accrued(now)->Ok_0;
    let after = deposit_spec(ctx, now, amount)->Ok_0.bank;
    let minted = shares_for(pool.total_deposited, pool.total_deposited_shares, amount)->Ok_0;
    lemma_minted_shares_return(pool.total_deposited, pool.total_deposited_shares, amount, minted);
    let t2 = after.total_deposited as int;
    let s2 = after.total_deposited_shares as int;
    let m = minted as int;
    let a = amount as int;
    let v = (m * t2) / s2;
    lemma_fundamental_div_mod(m * t2, s2);
    lemma_mod_bound(m * t2, s2);
    assert(0 <= v <= a && (a - v) * s2 < t2 + s2 && (a * s2 == m * t2 ==> v == a)) by (nonlinear_arith)
        requires
            m * t2 == s2 * v + (m * t2) % s2,
            0 <= (m * t2) % s2 < s2,
            0 <= a * s2 - m * t2 <= t2,
            0 <= m,
            0 < a,
            0 < s2,
            0 < t2,
    ;
}

/// A deposit followed at once by a withdrawal of the same amount.
///
/// The withdrawal is either refused with `InsufficientFunds`, which only
/// rounding in the pool's favour can cause, or it undoes the deposit: the
/// pool is as it was once interest had been added, and the position is as it
/// was but for the time of its last deposit. Where the shares minted stood
/// for the amount exactly, as in a pool without shares, the withdrawal is not
/// refused.
pub proof fn law_deposit_then_withdraw(ctx: Deposit, now: i64, amount: u64)
    requires
        ctx.bank.well_formed(),
        ctx.user_account.within(ctx.bank, ctx.user_account.asset_of(ctx.mint@)),
        deposit_spec(ctx, now, amount) is Ok,
    ensures
        ({
            let pool = ctx.bank.accrued(now)->Ok_0;
            let after = deposit_spec(ctx, now, amount)->Ok_0;
            let back = withdraw_spec(
                Withdraw { mint: ctx.mint, bank: after.bank, user_account: after.user },
                now,
                amount,
            );
            &&& ctx.bank.accrued(now) is Ok
            &&& back is Ok || back == Err::<Settlement, ErrorCode>(ErrorCode::InsufficientFunds)
            &&& pool.total_deposited_shares == 0 || (amount * pool.total_deposited_shares) % (
            pool.total_deposited as int) == 0 ==> back is Ok
            &&& back matches Ok(s) ==> s.bank == pool && s.user == (User {
                last_updated: now,
                ..ctx.user_account
            }) && s.transfer == (Transfer { direction: Direction::PoolToUser, amount: amount })
        }),
{
    let bank = ctx.bank;
    let user = ctx.user_account;
    law_accrual_keeps_pool_well_formed(bank, now);
    let asset = user.asset_of(ctx.mint@);
    let pool = bank.accrued(now)->Ok_0;
    let after = deposit_spec(ctx, now, amount)->Ok_0;
    let minted = shares_for(pool.total_deposited, pool.total_deposited_shares, amount)->Ok_0;
    let held = user.slot(asset).deposited_shares;
    assert(after.user.usdc_address@ == user.usdc_address@);
    assert(after.user.asset_of(ctx.mint@) == asset);
    law_accrual_at_same_time(after.bank);
    assert(after.bank.accrued(now) == Ok::<Bank, ErrorCode>(after.bank));
    lemma_minted_shares_return(pool.total_deposited, pool.total_deposited_shares, amount, minted);
    lemma_value_within_total(
        after.bank.total_deposited,
        after.bank.total_deposited_shares,
        after.user.slot(asset).deposited_shares,
    );
    let t2 = after.bank.total_deposited as int;
    let s2 = after.bank.total_deposited_shares as int;
    let h2 = after.user.slot(asset).deposited_shares as int;
    if pool.total_deposited_shares == 0 || (amount * pool.total_deposited_shares) % (
    pool.total_deposited as int) == 0 {
        let m = minted as int;
        let a = amount as int;
        assert(m * t2 == a * s2);
        assert(h2 * t2 >= a * s2) by (nonlinear_arith)
            requires
                m * t2 == a * s2,
                h2 >= m,
                t2 >= 0,
        ;
        lemma_div_is_ordered(a * s2, h2 * t2, s2);
        lemma_div_multiples_vanish(a, s2);
        assert(a * s2 == s2 * a) by (nonlinear_arith);
    }
    let back = withdraw_spec(
        Withdraw { mint: ctx.mint, bank: after.bank, user_account: after.user },
        now,
        amount,
    );
    if back is Ok {
        let s = back->Ok_0;
        assert(s.bank == pool);
        assert(s.user == (User { last_updated: now, ..user }));
    }
}

} // verus!
