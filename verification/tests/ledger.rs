use lending::errors::ErrorCode;
use lending::instructions::admin::{process_init_bank, process_init_user, InitializeBank, InitializeUser};
use lending::instructions::borrow::{borrow_limit, process_borrow, Borrow};
use lending::instructions::deposit::{process_deposit, Deposit};
use lending::instructions::repay::{proccess_repay, Repay};
use lending::instructions::settlement::{checked_credit, checked_debit, commit, Direction, Settlement, Transfer};
use lending::instructions::withdraw::{process_withdraw, Withdraw};
use lending::interest::DEFAULT_INTEREST_RATE;
use lending::oracle::{OracleConfig, PriceUpdate, Verification};
use lending::state::{Asset, Bank, Position, User};

const AUTHORITY: [u8; 32] = [1; 32];
const OWNER: [u8; 32] = [9; 32];
const SOL_MINT: [u8; 32] = [2; 32];
const USDC_MINT: [u8; 32] = [3; 32];
const SOL_FEED: [u8; 32] = [0xef; 32];
const USDC_FEED: [u8; 32] = [0xea; 32];
const T0: i64 = 1_700_000_000;

fn sol_bank() -> Bank {
    let mut bank = process_init_bank(&InitializeBank { signer: AUTHORITY, mint: SOL_MINT }, 8_000, 7_500);
    bank.interest_rate = 0;
    bank
}

fn usdc_bank() -> Bank {
    let mut bank = process_init_bank(&InitializeBank { signer: AUTHORITY, mint: USDC_MINT }, 8_000, 7_500);
    bank.interest_rate = 0;
    bank
}

fn user() -> User {
    process_init_user(&InitializeUser { signer: OWNER }, USDC_MINT)
}

fn user_of(owner: [u8; 32]) -> User {
    process_init_user(&InitializeUser { signer: owner }, USDC_MINT)
}

fn deposit(bank: &Bank, user: &User, now: i64, amount: u64) -> Result<Settlement, ErrorCode> {
    process_deposit(&Deposit { mint: bank.mint_address, bank: *bank, user_account: *user }, now, amount)
}

fn withdraw(bank: &Bank, user: &User, now: i64, amount: u64) -> Result<Settlement, ErrorCode> {
    process_withdraw(&Withdraw { mint: bank.mint_address, bank: *bank, user_account: *user }, now, amount)
}

fn repay(bank: &Bank, user: &User, now: i64, amount: u64) -> Result<Settlement, ErrorCode> {
    proccess_repay(&Repay { mint: bank.mint_address, bank: *bank, user_account: *user }, now, amount)
}

fn borrow_ctx(bank: &Bank, collateral_bank: &Bank, user: &User, price_update: &PriceUpdate) -> Borrow {
    Borrow {
        mint: bank.mint_address,
        bank: *bank,
        collateral_bank: *collateral_bank,
        user_account: *user,
        price_update: *price_update,
    }
}

fn borrow(
    bank: &Bank,
    collateral_bank: &Bank,
    user: &User,
    price_update: &PriceUpdate,
    now: i64,
    amount: u64,
) -> Result<Settlement, ErrorCode> {
    process_borrow(&borrow_ctx(bank, collateral_bank, user, price_update), &config(), now, amount)
}

fn limit(bank: &Bank, collateral_bank: &Bank, user: &User, price_update: &PriceUpdate, now: i64) -> Result<u128, ErrorCode> {
    borrow_limit(&borrow_ctx(bank, collateral_bank, user, price_update), &config(), now)
}

fn config() -> OracleConfig {
    OracleConfig { sol_usd_feed: SOL_FEED, usdc_usd_feed: USDC_FEED, max_age: 100 }
}

fn sol_price(price: i64, exponent: i32, publish_time: i64) -> PriceUpdate {
    PriceUpdate { verification: Verification::Full, feed_id: SOL_FEED, price, conf: 0, exponent, publish_time }
}

fn well_formed(bank: &Bank) -> bool {
    (bank.total_deposited_shares == 0) == (bank.total_deposited == 0)
        && (bank.total_borrowed_shares == 0) == (bank.total_borrowed == 0)
}

fn apply(bank: &mut Bank, user: &mut User, settlement: Result<Settlement, ErrorCode>) {
    let settlement = settlement.unwrap();
    assert_eq!(commit(bank, user, &settlement, true), Ok(()));
    assert!(well_formed(bank));
}

#[test]
fn init_bank_lists_an_empty_pool() {
    let bank = process_init_bank(&InitializeBank { signer: AUTHORITY, mint: SOL_MINT }, 8_000, 7_500);
    assert_eq!(
        bank,
        Bank {
            authority: AUTHORITY,
            mint_address: SOL_MINT,
            total_deposited: 0,
            total_deposited_shares: 0,
            total_borrowed: 0,
            total_borrowed_shares: 0,
            liquidation_threshold: 8_000,
            liquidation_bonus: 0,
            liquidation_close_factor: 0,
            max_ltv: 7_500,
            last_updated: 0,
            interest_rate: DEFAULT_INTEREST_RATE,
        }
    );
    assert_eq!(DEFAULT_INTEREST_RATE, 1_585_489_599);
}

#[test]
fn init_user_opens_an_empty_position() {
    let u = process_init_user(&InitializeUser { signer: OWNER }, USDC_MINT);
    assert_eq!(u.owner, OWNER);
    assert_eq!(u.usdc_address, USDC_MINT);
    let empty = Position { deposited: 0, deposited_shares: 0, borrowed: 0, borrowed_shares: 0 };
    assert_eq!(u.position(Asset::Sol), empty);
    assert_eq!(u.position(Asset::Usdc), empty);
    assert_eq!((u.last_updated, u.last_updated_borrow), (0, 0));
}

#[test]
fn asset_is_told_by_the_mint() {
    let u = user();
    assert_eq!(u.asset_for_mint(&USDC_MINT), Asset::Usdc);
    assert_eq!(u.asset_for_mint(&SOL_MINT), Asset::Sol);
    assert_eq!(u.asset_for_mint(&[0; 32]), Asset::Sol);
}

#[test]
fn positions_of_the_two_assets_are_separate() {
    let p = Position { deposited: 1, deposited_shares: 2, borrowed: 3, borrowed_shares: 4 };
    let u = user().with_position(Asset::Usdc, p);
    assert_eq!(u.position(Asset::Usdc), p);
    assert_eq!(u.position(Asset::Sol), user().position(Asset::Sol));
    assert_eq!((u.deposited_usdc, u.deposited_usdc_shares, u.borrowed_usdc, u.borrowed_usdc_shares), (1, 2, 3, 4));
    let v = u.with_position(Asset::Sol, p);
    assert_eq!((v.deposited_sol, v.deposited_sol_shares, v.borrowed_sol, v.borrowed_sol_shares), (1, 2, 3, 4));
    assert_eq!(v.position(Asset::Usdc), p);
}

#[test]
fn pool_bootstrap_then_deposit_into_grown_pool() {
    let mut bank = sol_bank();
    let mut alice = user();
    let first = deposit(&bank, &alice, T0, 1_000).unwrap();
    assert_eq!(first.transfer, Transfer { direction: Direction::UserToPool, amount: 1_000 });
    assert_eq!((first.bank.total_deposited, first.bank.total_deposited_shares), (1_000, 1_000));
    assert_eq!((first.user.deposited_sol, first.user.deposited_sol_shares), (1_000, 1_000));
    assert_eq!(first.user.last_updated, T0);
    assert_eq!(first.bank.last_updated, T0);
    assert_eq!(commit(&mut bank, &mut alice, &first, true), Ok(()));

    bank.interest_rate = 95_310_179_805;
    let mut bob = user_of([8; 32]);
    let second = deposit(&bank, &bob, T0 + 1_000_000, 500).unwrap();
    assert_eq!((second.bank.total_deposited, second.bank.total_deposited_shares), (1_600, 1_454));
    assert_eq!((second.user.deposited_sol, second.user.deposited_sol_shares), (500, 454));
    assert_eq!(second.bank.last_updated, T0 + 1_000_000);
    assert_eq!(commit(&mut bank, &mut bob, &second, true), Ok(()));
    assert_eq!(bank, second.bank);
    assert_eq!(bob, second.user);
}

#[test]
fn deposit_of_nothing_is_invalid() {
    assert_eq!(deposit(&sol_bank(), &user(), T0, 0), Err(ErrorCode::InvalidAmount));
}

#[test]
fn deposit_credits_the_asset_of_the_pool_only() {
    let s = deposit(&usdc_bank(), &user(), T0, 70).unwrap();
    assert_eq!((s.user.deposited_usdc, s.user.deposited_usdc_shares), (70, 70));
    assert_eq!((s.user.deposited_sol, s.user.deposited_sol_shares), (0, 0));
    assert_eq!((s.user.borrowed_usdc, s.user.borrowed_usdc_shares), (0, 0));
}

#[test]
fn deposit_reports_clock_regression_and_overflow() {
    let mut bank = sol_bank();
    bank.last_updated = T0;
    assert_eq!(deposit(&bank, &user(), T0 - 1, 5), Err(ErrorCode::InvalidTimeRange));
    bank.total_deposited = u64::MAX;
    bank.total_deposited_shares = 1;
    assert_eq!(deposit(&bank, &user(), T0, 1), Err(ErrorCode::ArithmeticOverflow));
    bank.total_deposited = 10;
    bank.interest_rate = u64::MAX;
    assert_eq!(deposit(&bank, &user(), T0 + 1, 1), Err(ErrorCode::AccrualOverflow));
    bank.interest_rate = 0;
    bank.total_deposited = 0;
    assert_eq!(deposit(&bank, &user(), T0 + 1, 1), Err(ErrorCode::DivisionByZero));
}

#[test]
fn accrual_touches_both_sides_of_the_pool() {
    let mut bank = sol_bank();
    bank.total_deposited = 1_000;
    bank.total_deposited_shares = 1_000;
    bank.total_borrowed = 2_000;
    bank.total_borrowed_shares = 2_000;
    bank.interest_rate = 95_310_179_805;
    bank.last_updated = T0;
    let grown = bank.accrue_interest(T0 + 1_000_000).unwrap();
    assert_eq!((grown.total_deposited, grown.total_deposited_shares), (1_100, 1_000));
    assert_eq!((grown.total_borrowed, grown.total_borrowed_shares), (2_200, 2_000));
    assert_eq!(grown.last_updated, T0 + 1_000_000);
    assert_eq!(bank.accrue_interest(T0), Ok(bank));
    assert_eq!(bank.accrue_interest(T0 - 1), Err(ErrorCode::InvalidTimeRange));
}

#[test]
fn withdraw_takes_value_and_shares_out() {
    let mut bank = sol_bank();
    let mut alice = user();
    let step = deposit(&bank, &alice, T0, 1_000);
    apply(&mut bank, &mut alice, step);
    let s = withdraw(&bank, &alice, T0 + 5, 400).unwrap();
    assert_eq!(s.transfer, Transfer { direction: Direction::PoolToUser, amount: 400 });
    assert_eq!((s.bank.total_deposited, s.bank.total_deposited_shares), (600, 600));
    assert_eq!((s.user.deposited_sol, s.user.deposited_sol_shares), (600, 600));
    assert_eq!(s.user.last_updated, T0);
    assert_eq!(s.bank.last_updated, T0 + 5);
}

#[test]
fn withdraw_beyond_the_worth_of_the_shares_is_refused() {
    let mut bank = sol_bank();
    let mut alice = user();
    let step = deposit(&bank, &alice, T0, 1_000);
    apply(&mut bank, &mut alice, step);
    assert_eq!(withdraw(&bank, &alice, T0, 1_001), Err(ErrorCode::InsufficientFunds));
    assert!(withdraw(&bank, &alice, T0, 1_000).is_ok());
    let stranger = user_of([7; 32]);
    assert_eq!(withdraw(&bank, &stranger, T0, 1), Err(ErrorCode::InsufficientFunds));
}

#[test]
fn withdraw_from_a_pool_without_shares_is_an_internal_error() {
    assert_eq!(withdraw(&sol_bank(), &user(), T0, 1), Err(ErrorCode::DivisionByZero));
    assert_eq!(withdraw(&sol_bank(), &user(), T0, 0), Err(ErrorCode::DivisionByZero));
}

#[test]
fn withdraw_beyond_the_recorded_deposit_is_an_arithmetic_error() {
    let mut bank = sol_bank();
    let mut alice = user();
    let step = deposit(&bank, &alice, T0, 1_000);
    apply(&mut bank, &mut alice, step);
    bank.interest_rate = 95_310_179_805;
    assert_eq!(withdraw(&bank, &alice, T0 + 1_000_000, 1_100), Err(ErrorCode::ArithmeticOverflow));
    assert_eq!(withdraw(&bank, &alice, T0 + 1_000_000, 1_101), Err(ErrorCode::InsufficientFunds));
    let s = withdraw(&bank, &alice, T0 + 1_000_000, 1_000).unwrap();
    assert_eq!((s.bank.total_deposited, s.bank.total_deposited_shares), (100, 91));
    assert_eq!((s.user.deposited_sol, s.user.deposited_sol_shares), (0, 91));
}

#[test]
fn deposit_then_withdraw_restores_pool_and_position() {
    for (total, shares, held) in [(0u64, 0u64, 0u64), (1_000, 1_000, 10), (3_000, 1_000, 1_000), (500, 1_000, 0)] {
        let mut bank = sol_bank();
        bank.total_deposited = total;
        bank.total_deposited_shares = shares;
        bank.last_updated = T0;
        let mut alice = user();
        alice.deposited_sol = held;
        alice.deposited_sol_shares = held;
        alice.last_updated = T0;
        for amount in [1u64, 3, 300, 3_000, 999_999] {
            if shares != 0 && (amount as u128 * shares as u128) % (total as u128) != 0 {
                continue;
            }
            let after = deposit(&bank, &alice, T0, amount).unwrap();
            let back = withdraw(&after.bank, &after.user, T0, amount).unwrap();
            assert_eq!(back.bank, bank);
            assert_eq!(back.user, alice);
            assert_eq!(back.transfer, Transfer { direction: Direction::PoolToUser, amount });
        }
    }
}

#[test]
fn deposit_then_withdraw_can_fail_on_rounding_only_with_insufficient_funds() {
    let mut bank = sol_bank();
    bank.total_deposited = 1_100;
    bank.total_deposited_shares = 1_000;
    bank.last_updated = T0;
    let alice = user();
    let after = deposit(&bank, &alice, T0, 500).unwrap();
    assert_eq!(after.user.deposited_sol_shares, 454);
    assert_eq!(withdraw(&after.bank, &after.user, T0, 500), Err(ErrorCode::InsufficientFunds));
    let back = withdraw(&after.bank, &after.user, T0, 499).unwrap();
    assert_eq!((back.bank.total_deposited, back.bank.total_deposited_shares), (1_101, 1_001));
}

#[test]
fn deposit_then_withdraw_at_zero_rate_after_time_restores_balances() {
    let mut bank = sol_bank();
    bank.total_deposited = 1_000;
    bank.total_deposited_shares = 1_000;
    bank.last_updated = T0;
    let mut alice = user();
    alice.last_updated = T0;
    let after = deposit(&bank, &alice, T0 + 77, 250).unwrap();
    let back = withdraw(&after.bank, &after.user, T0 + 77, 250).unwrap();
    let mut expected_bank = bank;
    expected_bank.last_updated = T0 + 77;
    let mut expected_user = alice;
    expected_user.last_updated = T0 + 77;
    assert_eq!(back.bank, expected_bank);
    assert_eq!(back.user, expected_user);
}

fn collateralised(collateral: u64) -> (Bank, Bank, User) {
    let mut sol = sol_bank();
    let mut usdc = usdc_bank();
    let mut alice = user();
    let step = deposit(&sol, &alice, T0, collateral);
    apply(&mut sol, &mut alice, step);
    let mut lender = user_of([5; 32]);
    let step = deposit(&usdc, &lender, T0, 1_000_000);
    apply(&mut usdc, &mut lender, step);
    (usdc, sol, alice)
}

#[test]
fn borrow_authorization_at_the_limit() {
    let (usdc, sol, alice) = collateralised(10_000);
    let quote = sol_price(1, 0, T0);
    assert_eq!(limit(&usdc, &sol, &alice, &quote, T0), Ok(8_000));
    assert_eq!(
        borrow(&usdc, &sol, &alice, &quote, T0, 8_001),
        Err(ErrorCode::OverTheBorrowableAmount)
    );
    let s = borrow(&usdc, &sol, &alice, &quote, T0, 8_000).unwrap();
    assert_eq!(s.transfer, Transfer { direction: Direction::PoolToUser, amount: 8_000 });
    assert_eq!((s.bank.total_borrowed, s.bank.total_borrowed_shares), (8_000, 8_000));
    assert_eq!((s.user.borrowed_usdc, s.user.borrowed_usdc_shares), (8_000, 8_000));
    assert_eq!((s.user.deposited_usdc, s.user.deposited_usdc_shares), (0, 0));
    assert_eq!((s.user.deposited_sol, s.user.deposited_sol_shares), (10_000, 10_000));
    assert_eq!((s.user.borrowed_sol, s.user.borrowed_sol_shares), (0, 0));
    assert_eq!(s.user.last_updated_borrow, T0);
    assert_eq!(s.user.last_updated, T0);
    assert_eq!((s.bank.total_deposited, s.bank.total_deposited_shares), (1_000_000, 1_000_000));
}

#[test]
fn borrow_limit_uses_price_exponent_and_threshold() {
    let (mut usdc, sol, alice) = collateralised(2_000);
    let quote = sol_price(15_012_345_678, -8, T0);
    assert_eq!(limit(&usdc, &sol, &alice, &quote, T0), Ok(240_196));
    usdc.liquidation_threshold = 5_000;
    assert_eq!(limit(&usdc, &sol, &alice, &quote, T0), Ok(150_123));
    assert!(borrow(&usdc, &sol, &alice, &quote, T0, 150_123).is_ok());
    assert_eq!(
        borrow(&usdc, &sol, &alice, &quote, T0, 150_124),
        Err(ErrorCode::OverTheBorrowableAmount)
    );
}

#[test]
fn borrow_limit_grows_with_accrued_collateral() {
    let (usdc, mut sol, alice) = collateralised(10_000);
    sol.interest_rate = 95_310_179_805;
    let quote = sol_price(1, 0, T0 + 1_000_000);
    assert_eq!(limit(&usdc, &sol, &alice, &quote, T0 + 1_000_000), Ok(8_800));
}

#[test]
fn borrow_of_nothing_is_invalid() {
    let (usdc, sol, alice) = collateralised(10_000);
    assert_eq!(
        borrow(&usdc, &sol, &alice, &sol_price(1, 0, T0), T0, 0),
        Err(ErrorCode::InvalidAmount)
    );
}

#[test]
fn borrow_needs_a_usable_price() {
    let (usdc, sol, alice) = collateralised(10_000);
    assert_eq!(
        borrow(&usdc, &sol, &alice, &sol_price(1, 0, T0 - 101), T0, 1),
        Err(ErrorCode::StalePrice)
    );
    assert!(borrow(&usdc, &sol, &alice, &sol_price(1, 0, T0 - 100), T0, 1).is_ok());
    let mut other = sol_price(1, 0, T0);
    other.feed_id = USDC_FEED;
    assert_eq!(borrow(&usdc, &sol, &alice, &other, T0, 1), Err(ErrorCode::StalePrice));
    let mut partial = sol_price(1, 0, T0);
    partial.verification = Verification::Partial { num_signatures: 12 };
    assert_eq!(borrow(&usdc, &sol, &alice, &partial, T0, 1), Err(ErrorCode::StalePrice));
}

#[test]
fn borrow_without_collateral_is_over_the_limit() {
    let (usdc, sol, _) = collateralised(10_000);
    let stranger = user_of([7; 32]);
    assert_eq!(
        borrow(&usdc, &sol, &stranger, &sol_price(1, 0, T0), T0, 1),
        Err(ErrorCode::OverTheBorrowableAmount)
    );
}

#[test]
fn second_borrow_is_priced_at_the_grown_debt() {
    let (mut usdc, sol, mut alice) = collateralised(10_000);
    let quote = sol_price(1, 0, T0);
    let step = borrow(&usdc, &sol, &alice, &quote, T0, 1_000);
    apply(&mut usdc, &mut alice, step);
    usdc.interest_rate = 95_310_179_805;
    let later = T0 + 1_000_000;
    let s = borrow(&usdc, &sol, &alice, &sol_price(1, 0, later), later, 500).unwrap();
    assert_eq!((s.bank.total_borrowed, s.bank.total_borrowed_shares), (1_600, 1_454));
    assert_eq!((s.user.borrowed_usdc, s.user.borrowed_usdc_shares), (1_500, 1_454));
    assert_eq!(s.user.last_updated_borrow, later);
    assert_eq!(s.bank.total_deposited, 1_100_000);
}

#[test]
fn repay_more_than_borrowed_is_refused() {
    let (mut usdc, sol, mut alice) = collateralised(10_000);
    let step = borrow(&usdc, &sol, &alice, &sol_price(1, 0, T0), T0, 1_000);
    apply(&mut usdc, &mut alice, step);
    assert_eq!(repay(&usdc, &alice, T0, 1_001), Err(ErrorCode::InsufficientRepayAmount));
    assert_eq!(repay(&usdc, &alice, T0, u64::MAX), Err(ErrorCode::InsufficientRepayAmount));
    assert_eq!(repay(&usdc, &alice, T0, 0), Err(ErrorCode::InsufficientRepayAmount));
    assert_eq!(repay(&sol, &alice, T0, 1), Err(ErrorCode::InsufficientRepayAmount));
}

#[test]
fn repay_in_full_clears_amount_and_shares() {
    let (mut usdc, sol, mut alice) = collateralised(10_000);
    let step = borrow(&usdc, &sol, &alice, &sol_price(1, 0, T0), T0, 1_000);
    apply(&mut usdc, &mut alice, step);
    let s = repay(&usdc, &alice, T0 + 9, 1_000).unwrap();
    assert_eq!(s.transfer, Transfer { direction: Direction::UserToPool, amount: 1_000 });
    assert_eq!((s.user.borrowed_usdc, s.user.borrowed_usdc_shares), (0, 0));
    assert_eq!((s.bank.total_borrowed, s.bank.total_borrowed_shares), (0, 0));
    assert_eq!((s.user.deposited_sol, s.user.deposited_sol_shares), (10_000, 10_000));
    assert_eq!(s.bank.last_updated, T0 + 9);
}

#[test]
fn repay_in_part_removes_shares_in_proportion() {
    let (mut usdc, sol, mut alice) = collateralised(10_000);
    let step = borrow(&usdc, &sol, &alice, &sol_price(1, 0, T0), T0, 1_000);
    apply(&mut usdc, &mut alice, step);
    usdc.interest_rate = 95_310_179_805;
    let s = repay(&usdc, &alice, T0 + 1_000_000, 550).unwrap();
    assert_eq!((s.bank.total_borrowed, s.bank.total_borrowed_shares), (550, 500));
    assert_eq!((s.user.borrowed_usdc, s.user.borrowed_usdc_shares), (450, 500));
}

#[test]
fn repay_in_full_after_interest_leaves_the_shares_that_stand_for_it() {
    let (mut usdc, sol, mut alice) = collateralised(10_000);
    let step = borrow(&usdc, &sol, &alice, &sol_price(1, 0, T0), T0, 1_000);
    apply(&mut usdc, &mut alice, step);
    usdc.interest_rate = 95_310_179_805;
    let s = repay(&usdc, &alice, T0 + 1_000_000, 1_000).unwrap();
    assert_eq!((s.user.borrowed_usdc, s.user.borrowed_usdc_shares), (0, 91));
    assert_eq!((s.bank.total_borrowed, s.bank.total_borrowed_shares), (100, 91));
}

#[test]
fn repay_reports_broken_pool_totals() {
    let mut alice = user();
    alice.borrowed_usdc = 10;
    alice.borrowed_usdc_shares = 10;
    let mut bank = usdc_bank();
    assert_eq!(repay(&bank, &alice, T0, 10), Err(ErrorCode::DivisionByZero));
    bank.total_borrowed = 5;
    bank.total_borrowed_shares = 5;
    assert_eq!(repay(&bank, &alice, T0, 10), Err(ErrorCode::ArithmeticOverflow));
}

#[test]
fn commit_writes_both_records_or_neither() {
    let mut bank = sol_bank();
    let mut alice = user();
    let before = (bank, alice);
    let s = deposit(&bank, &alice, T0, 1_000).unwrap();
    assert_eq!(commit(&mut bank, &mut alice, &s, false), Err(ErrorCode::TransferFailed));
    assert_eq!((bank, alice), before);
    assert_eq!(commit(&mut bank, &mut alice, &s, true), Ok(()));
    assert_eq!((bank, alice), (s.bank, s.user));
}

#[test]
fn refused_operations_leave_the_records_alone() {
    let (usdc, sol, alice) = collateralised(10_000);
    let before = (usdc, sol, alice);
    assert!(borrow(&usdc, &sol, &alice, &sol_price(1, 0, T0), T0, 9_000).is_err());
    assert!(withdraw(&sol, &alice, T0, 10_001).is_err());
    assert!(repay(&usdc, &alice, T0, 1).is_err());
    assert!(deposit(&sol, &alice, T0, 0).is_err());
    assert_eq!((usdc, sol, alice), before);
}

#[test]
fn pool_stays_well_formed_through_a_history() {
    let mut sol = sol_bank();
    let mut usdc = usdc_bank();
    sol.interest_rate = DEFAULT_INTEREST_RATE;
    usdc.interest_rate = DEFAULT_INTEREST_RATE;
    let mut alice = user();
    let mut bob = user_of([8; 32]);
    let mut now = T0;
    let step = deposit(&sol, &alice, now, 1_000_000);
    apply(&mut sol, &mut alice, step);
    let step = deposit(&usdc, &bob, now, 5_000_000);
    apply(&mut usdc, &mut bob, step);
    now += 86_400;
    let step = borrow(&usdc, &sol, &alice, &sol_price(150, 0, now), now, 40_000);
    apply(&mut usdc, &mut alice, step);
    now += 30 * 86_400;
    let step = withdraw(&usdc, &bob, now, 1_234_567);
    apply(&mut usdc, &mut bob, step);
    now += 86_400;
    let step = repay(&usdc, &alice, now, 15_000);
    apply(&mut usdc, &mut alice, step);
    now += 86_400;
    let step = repay(&usdc, &alice, now, 25_000);
    apply(&mut usdc, &mut alice, step);
    assert_eq!(alice.borrowed_usdc, 0);
    assert!(alice.borrowed_usdc_shares <= usdc.total_borrowed_shares);
    assert!(bob.deposited_usdc_shares <= usdc.total_deposited_shares);
    let step = withdraw(&sol, &alice, now, 1_000_000);
    apply(&mut sol, &mut alice, step);
    assert_eq!(alice.deposited_sol, 0);
}

#[test]
fn balances_are_credited_and_debited_with_checks() {
    assert_eq!(checked_credit(1, 2), Ok(3));
    assert_eq!(checked_credit(u64::MAX, 0), Ok(u64::MAX));
    assert_eq!(checked_credit(u64::MAX, 1), Err(ErrorCode::ArithmeticOverflow));
    assert_eq!(checked_debit(3, 2), Ok(1));
    assert_eq!(checked_debit(3, 3), Ok(0));
    assert_eq!(checked_debit(3, 4), Err(ErrorCode::ArithmeticOverflow));
}

#[test]
fn asset_of_an_operation_is_told_by_its_mint() {
    let ctx = Deposit { mint: USDC_MINT, bank: sol_bank(), user_account: user() };
    let s = process_deposit(&ctx, T0, 40).unwrap();
    assert_eq!((s.user.deposited_usdc, s.user.deposited_usdc_shares), (40, 40));
    assert_eq!((s.user.deposited_sol, s.user.deposited_sol_shares), (0, 0));
    let ctx = Deposit { mint: [0; 32], bank: usdc_bank(), user_account: user() };
    let s = process_deposit(&ctx, T0, 40).unwrap();
    assert_eq!((s.user.deposited_sol, s.user.deposited_sol_shares), (40, 40));
    assert_eq!((s.user.deposited_usdc, s.user.deposited_usdc_shares), (0, 0));
}

#[test]
fn borrowing_sol_is_backed_by_usdc() {
    let mut sol = sol_bank();
    let mut usdc = usdc_bank();
    let mut alice = user();
    let step = deposit(&usdc, &alice, T0, 50_000);
    apply(&mut usdc, &mut alice, step);
    let mut lender = user_of([5; 32]);
    let step = deposit(&sol, &lender, T0, 1_000_000);
    apply(&mut sol, &mut lender, step);
    let usdc_quote = PriceUpdate {
        verification: Verification::Full,
        feed_id: USDC_FEED,
        price: 99_990_000,
        conf: 0,
        exponent: -8,
        publish_time: T0,
    };
    assert_eq!(limit(&sol, &usdc, &alice, &usdc_quote, T0), Ok(39_996));
    assert_eq!(
        borrow(&sol, &usdc, &alice, &sol_price(1, 0, T0), T0, 1),
        Err(ErrorCode::StalePrice)
    );
    let s = borrow(&sol, &usdc, &alice, &usdc_quote, T0, 39_996).unwrap();
    assert_eq!((s.user.borrowed_sol, s.user.borrowed_sol_shares), (39_996, 39_996));
    assert_eq!((s.user.deposited_usdc, s.user.deposited_usdc_shares), (50_000, 50_000));
    assert_eq!((s.user.borrowed_usdc, s.user.borrowed_usdc_shares), (0, 0));
    assert_eq!(
        borrow(&sol, &usdc, &alice, &usdc_quote, T0, 39_997),
        Err(ErrorCode::OverTheBorrowableAmount)
    );
}
