//! The ways a ledger call can fail.

use vstd::prelude::*;

verus! {

/// Every failure is terminal to the call that raised it: nothing is retried,
/// and the records handed to the call are left as they were.
#[derive(Clone, Copy, Debug, PartialEq, Eq, Structural)]
pub enum ErrorCode {
    /// A withdrawal asks for more than the participant's shares are worth.
    InsufficientFunds,
    /// A borrow asks for more than the collateral allows.
    OverTheBorrowableAmount,
    /// A repayment of nothing, or of more than is recorded as borrowed.
    InsufficientRepayAmount,
    /// Kept for liquidation; no ledger operation returns it.
    HealthFactorAboveThreshold,
    /// An amount of zero where a positive one is needed.
    InvalidAmount,
    /// The oracle has no usable price: too old, unverified, or of another feed.
    StalePrice,
    /// The custody layer did not move the tokens.
    TransferFailed,
    /// A result does not fit its integer type.
    ArithmeticOverflow,
    /// A share ratio over a pool side that has issued no shares.
    DivisionByZero,
    /// The clock went backwards.
    InvalidTimeRange,
    /// Interest grew out of the range that accrual can represent.
    AccrualOverflow,
}

impl ErrorCode {
    /// Whether the caller can be expected to recover by changing the request,
    /// as opposed to a broken invariant or an outside failure.
    pub open spec fn user_facing(self) -> bool {
        self == ErrorCode::InsufficientFunds || self == ErrorCode::OverTheBorrowableAmount
            || self == ErrorCode::InsufficientRepayAmount || self == ErrorCode::InvalidAmount
    }

    /// Arithmetic failures: a broken invariant or a hostile edge case.
    pub open spec fn arithmetic(self) -> bool {
        self == ErrorCode::ArithmeticOverflow || self == ErrorCode::DivisionByZero
    }

    /// Tells expected, recoverable outcomes from the rest.
    pub fn is_user_facing(&self) -> (r: bool)
        ensures
            r == self.user_facing(),
    {
        match self {
            ErrorCode::InsufficientFunds => true,
            ErrorCode::OverTheBorrowableAmount => true,
            ErrorCode::InsufficientRepayAmount => true,
            ErrorCode::InvalidAmount => true,
            _ => false,
        }
    }

    /// Tells arithmetic failures from the rest.
    pub fn is_arithmetic(&self) -> (r: bool)
        ensures
            r == self.arithmetic(),
    {
        match self {
            ErrorCode::ArithmeticOverflow => true,
            ErrorCode::DivisionByZero => true,
            _ => false,
        }
    }

    /// The text shown for each failure.
    pub open spec fn message_text(self) -> Seq<char> {
        match self {
            ErrorCode::InsufficientFunds => "Insufficient Funds"@,
            ErrorCode::OverTheBorrowableAmount => "Over the Borrowable Amount"@,
            ErrorCode::InsufficientRepayAmount => "Insufficient Repay Amount"@,
            ErrorCode::HealthFactorAboveThreshold => "Health Factor is above the threshold"@,
            ErrorCode::InvalidAmount => "Invalid Amount"@,
            ErrorCode::StalePrice => "Stale Price"@,
            ErrorCode::TransferFailed => "Transfer Failed"@,
            ErrorCode::ArithmeticOverflow => "Arithmetic Overflow"@,
            ErrorCode::DivisionByZero => "Division by Zero"@,
            ErrorCode::InvalidTimeRange => "Invalid Time Range"@,
            ErrorCode::AccrualOverflow => "Accrual Overflow"@,
        }
    }

    /// The text shown for this failure.
    pub fn message(&self) -> (r: &'static str)
        ensures
            r@ == self.message_text(),
    {
        match self {
            ErrorCode::InsufficientFunds => "Insufficient Funds",
            ErrorCode::OverTheBorrowableAmount => "Over the Borrowable Amount",
            ErrorCode::InsufficientRepayAmount => "Insufficient Repay Amount",
            ErrorCode::HealthFactorAboveThreshold => "Health Factor is above the threshold",
            ErrorCode::InvalidAmount => "Invalid Amount",
            ErrorCode::StalePrice => "Stale Price",
            ErrorCode::TransferFailed => "Transfer Failed",
            ErrorCode::ArithmeticOverflow => "Arithmetic Overflow",
            ErrorCode::DivisionByZero => "Division by Zero",
            ErrorCode::InvalidTimeRange => "Invalid Time Range",
            ErrorCode::AccrualOverflow => "Accrual Overflow",
        }
    }
}

} // verus!
