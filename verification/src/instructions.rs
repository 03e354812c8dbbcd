//! The operations of the ledger. Each one reads a pool and a position and
//! either refuses, or returns both as they will be together with the
//! transfer that custody must make first.

pub mod admin;
pub mod settlement;
pub mod deposit;
pub mod withdraw;
pub mod repay;
pub mod borrow;
