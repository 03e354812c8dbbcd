//! Accounting core of a collateralised lending protocol.
//!
//! The ledger keeps one pool per asset and one position per participant. A
//! pool holds, for deposits and for borrows, an amount and the shares issued
//! against it; interest is added to the amount, so that every share gains
//! without any participant being visited. Before value leaves a pool the
//! ledger checks the participant's claim: the worth of their shares for a
//! withdrawal, the oracle-priced worth of their collateral for a borrow.
//!
//! An operation does not write to the records. It returns a
//! [`Settlement`](instructions::settlement::Settlement): both records as they
//! will be, and the transfer that custody has to make first.
//! [`commit`](instructions::settlement::commit) then writes both or neither.
//!
//! All arithmetic is in integers: amounts and shares are `u64`, rates are a
//! number per second scaled by [`WAD`](interest::WAD), ratios are basis
//! points. Nothing wraps, saturates or is clamped; what does not fit is an
//! error.
//!
//! - [`errors`]: the ways a call can fail
//! - [`math`]: products over a divisor
//! - [`interest`]: continuous compounding
//! - [`state`]: pool and position
//! - [`shares`]: amounts to shares and back
//! - [`oracle`]: prices and the value of collateral
//! - [`instructions`]: deposit, withdraw, borrow, repay, and their commit
//! - [`laws`]: what holds across operations

pub mod errors;
pub mod math;
pub mod interest;
pub mod state;
pub mod shares;
pub mod oracle;
pub mod instructions;
pub mod laws;
