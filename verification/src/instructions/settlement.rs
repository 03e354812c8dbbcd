//! What an operation hands back, and how it is committed.

use vstd::prelude::*;
use crate::errors::ErrorCode;
use crate::state::{Bank, User};

verus! {

/// Which way tokens move between a participant's wallet and a pool's treasury.
#[derive(Clone, Copy, Debug, PartialEq, Eq, Structural)]
pub enum Direction {
    UserToPool,
    PoolToUser,
}

/// A movement of tokens that custody is asked to make.
#[derive(Clone, Copy, Debug, PartialEq, Eq, Structural)]
pub struct Transfer {
    pub direction: Direction,
    pub amount: u64,
}

/// An authorised operation: the pool and the position as they will be, and
/// the transfer that has to succeed before they are written.
#[derive(Clone, Copy, Debug, PartialEq, Eq)]
pub struct Settlement {
    pub bank: Bank,
    pub user: User,
    pub transfer: Transfer,
}

/// `a + b` where it fits.
pub open spec fn credit(a: u64, b: u64) -> Result<u64, ErrorCode> {
    if a + b > u64::MAX {
        Err(ErrorCode::ArithmeticOverflow)
    } else {
        Ok((a + b) as u64)
    }
}

/// `a - b` where `b` does not exceed `a`.
pub open spec fn debit(a: u64, b: u64) -> Result<u64, ErrorCode> {
    if a < b {
        Err(ErrorCode::ArithmeticOverflow)
    } else {
        Ok((a - b) as u64)
    }
}

/// Adds to a balance, reporting an overflow.
pub fn checked_credit(a: u64, b: u64) -> (r: Result<u64, ErrorCode>)
    ensures
        r == credit(a, b),
{
    match a.checked_add(b) {
        Some(v) => Ok(v),
        None => Err(ErrorCode::ArithmeticOverflow),
    }
}

/// Takes from a balance, reporting an underflow.
pub fn checked_debit(a: u64, b: u64) -> (r: Result<u64, ErrorCode>)
    ensures
        r == debit(a, b),
{
    match a.checked_sub(b) {
        Some(v) => Ok(v),
        None => Err(ErrorCode::ArithmeticOverflow),
    }
}

/// Writes an authorised operation to the records once custody has answered.
/// Where the transfer was made, both records take their new state together;
/// where it was not, neither changes and the call fails with
/// `TransferFailed`. Either way a well-formed pool stays well formed, given
/// that the settlement's is.
pub fn commit(bank: &mut Bank, user: &mut User, settlement: &Settlement, transferred: bool) -> (r: Result<
    (),
    ErrorCode,
>)
    ensures
        transferred ==> r is Ok && *final(bank) == settlement.bank && *final(user) == settlement.user,
        !transferred ==> r == Err::<(), ErrorCode>(ErrorCode::TransferFailed) && *final(bank) == *old(
            bank,
        ) && *final(user) == *old(user),
        old(bank).well_formed() && settlement.bank.well_formed() ==> final(bank).well_formed(),
{
    if transferred {
        *bank = settlement.bank;
        *user = settlement.user;
        Ok(())
    } else {
        Err(ErrorCode::TransferFailed)
    }
}

} // verus!
