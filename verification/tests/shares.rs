use lending::errors::ErrorCode;
use lending::instructions::admin::{process_init_bank, InitializeBank};
use lending::math::{mul_div, same_key};
use lending::shares::{borrow_shares_for, deposit_shares_for, value_of_shares, Side};
use lending::state::Bank;

fn pool(total_deposited: u64, deposited_shares: u64, total_borrowed: u64, borrowed_shares: u64) -> Bank {
    let mut bank = process_init_bank(&InitializeBank { signer: [1; 32], mint: [2; 32] }, 8_000, 7_500);
    bank.total_deposited = total_deposited;
    bank.total_deposited_shares = deposited_shares;
    bank.total_borrowed = total_borrowed;
    bank.total_borrowed_shares = borrowed_shares;
    bank
}

#[test]
fn first_deposit_mints_one_share_per_unit() {
    assert_eq!(deposit_shares_for(&pool(0, 0, 0, 0), 1_000), Ok(1_000));
    assert_eq!(deposit_shares_for(&pool(0, 0, 0, 0), u64::MAX), Ok(u64::MAX));
}

#[test]
fn deposit_into_grown_pool_mints_fewer_shares() {
    assert_eq!(deposit_shares_for(&pool(1_100, 1_000, 0, 0), 500), Ok(454));
}

#[test]
fn first_borrow_mints_one_share_per_unit() {
    assert_eq!(borrow_shares_for(&pool(0, 0, 0, 0), 250), Ok(250));
    assert_eq!(borrow_shares_for(&pool(9, 9, 0, 0), 250), Ok(250));
}

#[test]
fn borrow_shares_use_the_borrow_side() {
    assert_eq!(borrow_shares_for(&pool(1_100, 1_000, 3_000, 1_000), 7), Ok(2));
    assert_eq!(deposit_shares_for(&pool(1_100, 1_000, 3_000, 1_000), 7), Ok(6));
}

#[test]
fn share_conversion_rounds_toward_zero() {
    assert_eq!(deposit_shares_for(&pool(3, 2, 0, 0), 1), Ok(0));
    assert_eq!(deposit_shares_for(&pool(3, 2, 0, 0), 2), Ok(1));
    assert_eq!(value_of_shares(&pool(3, 2, 0, 0), 1, Side::Deposit), Ok(1));
}

#[test]
fn share_conversion_reports_overflow_and_empty_total() {
    assert_eq!(deposit_shares_for(&pool(1, u64::MAX, 0, 0), 2), Err(ErrorCode::ArithmeticOverflow));
    assert_eq!(deposit_shares_for(&pool(0, 5, 0, 0), 2), Err(ErrorCode::DivisionByZero));
    assert_eq!(borrow_shares_for(&pool(0, 0, 0, 5), 2), Err(ErrorCode::DivisionByZero));
    assert_eq!(deposit_shares_for(&pool(u64::MAX, u64::MAX, 0, 0), u64::MAX), Ok(u64::MAX));
}

#[test]
fn value_of_shares_on_each_side() {
    let bank = pool(1_100, 1_000, 3_000, 1_000);
    assert_eq!(value_of_shares(&bank, 454, Side::Deposit), Ok(499));
    assert_eq!(value_of_shares(&bank, 1_000, Side::Deposit), Ok(1_100));
    assert_eq!(value_of_shares(&bank, 2, Side::Borrow), Ok(6));
    assert_eq!(value_of_shares(&bank, 0, Side::Borrow), Ok(0));
}

#[test]
fn value_of_shares_without_shares_is_division_by_zero() {
    assert_eq!(value_of_shares(&pool(0, 0, 0, 0), 0, Side::Deposit), Err(ErrorCode::DivisionByZero));
    assert_eq!(value_of_shares(&pool(10, 0, 0, 0), 1, Side::Deposit), Err(ErrorCode::DivisionByZero));
    assert_eq!(value_of_shares(&pool(10, 10, 0, 0), 1, Side::Borrow), Err(ErrorCode::DivisionByZero));
}

#[test]
fn value_of_shares_reports_overflow() {
    assert_eq!(value_of_shares(&pool(u64::MAX, 1, 0, 0), 2, Side::Deposit), Err(ErrorCode::ArithmeticOverflow));
}

#[test]
fn shares_bought_keep_their_value_up_to_rounding() {
    for (total, shares) in [(1_100u64, 1_000u64), (1_000, 1_000), (3_000, 1_000), (7, 13), (1, 1)] {
        let bank = pool(total, shares, 0, 0);
        for amount in [0u64, 1, 2, 3, 10, 499, 500, 12_345] {
            let minted = deposit_shares_for(&bank, amount).unwrap();
            let worth = value_of_shares(&bank, minted, Side::Deposit).unwrap();
            assert!(worth <= amount);
            assert!(((amount - worth) as u128) * (shares as u128) < (total as u128) + (shares as u128));
            if total <= shares {
                assert!(amount - worth <= 1);
            }
        }
    }
}

#[test]
fn shortfall_can_exceed_one_unit_where_a_share_is_worth_more() {
    let bank = pool(3_000, 1_000, 0, 0);
    let minted = deposit_shares_for(&bank, 2).unwrap();
    assert_eq!(minted, 0);
    assert_eq!(value_of_shares(&bank, minted, Side::Deposit), Ok(0));
}

#[test]
fn mul_div_is_exact_in_wide_arithmetic() {
    assert_eq!(mul_div(u64::MAX, u64::MAX, u64::MAX), Ok(u64::MAX));
    assert_eq!(mul_div(u64::MAX, 2, 3), Ok(12_297_829_382_473_034_410));
    assert_eq!(mul_div(u64::MAX, 2, 1), Err(ErrorCode::ArithmeticOverflow));
    assert_eq!(mul_div(0, 0, 0), Err(ErrorCode::DivisionByZero));
    assert_eq!(mul_div(7, 3, 2), Ok(10));
}

#[test]
fn same_key_compares_all_bytes() {
    let a = [7u8; 32];
    let mut b = [7u8; 32];
    assert!(same_key(&a, &b));
    b[31] = 8;
    assert!(!same_key(&a, &b));
    b[31] = 7;
    b[0] = 0;
    assert!(!same_key(&a, &b));
}
