//! The two records of the ledger: a pool per asset and a position per
//! participant.

use vstd::prelude::*;
use crate::errors::ErrorCode;
use crate::interest::{accrue_spec, calculate_accrued_interest, lemma_accrue_grows};
use crate::math::same_key;

verus! {

/// The two assets a position can hold.
#[derive(Clone, Copy, Debug, PartialEq, Eq, Structural)]
pub enum Asset {
    Sol,
    Usdc,
}

/// One asset's part of a participant's position.
#[derive(Clone, Copy, Debug, PartialEq, Eq, Structural)]
pub struct Position {
    pub deposited: u64,
    pub deposited_shares: u64,
    pub borrowed: u64,
    pub borrowed_shares: u64,
}

/// A participant's state over both pools.
#[derive(Clone, Copy, Debug, PartialEq, Eq)]
pub struct User {
    pub owner: [u8; 32],
    pub deposited_sol: u64,
    pub borrowed_sol: u64,
    pub deposited_sol_shares: u64,
    pub borrowed_sol_shares: u64,
    pub deposited_usdc: u64,
    pub borrowed_usdc: u64,
    pub deposited_usdc_shares: u64,
    pub borrowed_usdc_shares: u64,
    pub usdc_address: [u8; 32],
    /// When the participant last deposited.
    pub last_updated: i64,
    /// When the participant last borrowed.
    pub last_updated_borrow: i64,
}

/// One asset's pool: what is deposited and borrowed, as amounts and as shares.
#[derive(Clone, Copy, Debug, PartialEq, Eq)]
pub struct Bank {
    pub authority: [u8; 32],
    pub mint_address: [u8; 32],
    pub total_deposited: u64,
    pub total_deposited_shares: u64,
    pub total_borrowed: u64,
    pub total_borrowed_shares: u64,
    /// Part of the collateral's value that may be borrowed, in basis points.
    pub liquidation_threshold: u64,
    pub liquidation_bonus: u64,
    pub liquidation_close_factor: u64,
    pub max_ltv: u64,
    /// When interest was last added to the totals.
    pub last_updated: i64,
    /// Continuous rate per second, scaled by `WAD`.
    pub interest_rate: u64,
}

impl Asset {
    /// The asset that is not this one.
    pub open spec fn other(self) -> Asset {
        match self {
            Asset::Sol => Asset::Usdc,
            Asset::Usdc => Asset::Sol,
        }
    }
}

/// The asset that is not `asset`.
pub fn other_asset(asset: Asset) -> (r: Asset)
    ensures
        r == asset.other(),
{
    match asset {
        Asset::Sol => Asset::Usdc,
        Asset::Usdc => Asset::Sol,
    }
}

impl User {
    /// The asset that a mint stands for in this position: the recorded USDC
    /// mint is USDC, any other is SOL.
    pub open spec fn asset_of(self, mint: Seq<u8>) -> Asset {
        if mint == self.usdc_address@ {
            Asset::Usdc
        } else {
            Asset::Sol
        }
    }

    /// The part of the position held in `asset`.
    pub open spec fn slot(self, asset: Asset) -> Position {
        match asset {
            Asset::Sol => Position {
                deposited: self.deposited_sol,
                deposited_shares: self.deposited_sol_shares,
                borrowed: self.borrowed_sol,
                borrowed_shares: self.borrowed_sol_shares,
            },
            Asset::Usdc => Position {
                deposited: self.deposited_usdc,
                deposited_shares: self.deposited_usdc_shares,
                borrowed: self.borrowed_usdc,
                borrowed_shares: self.borrowed_usdc_shares,
            },
        }
    }

    /// This position with the part held in `asset` replaced.
    pub open spec fn with_slot(self, asset: Asset, p: Position) -> User {
        match asset {
            Asset::Sol => User {
                deposited_sol: p.deposited,
                deposited_sol_shares: p.deposited_shares,
                borrowed_sol: p.borrowed,
                borrowed_sol_shares: p.borrowed_shares,
                ..self
            },
            Asset::Usdc => User {
                deposited_usdc: p.deposited,
                deposited_usdc_shares: p.deposited_shares,
                borrowed_usdc: p.borrowed,
                borrowed_usdc_shares: p.borrowed_shares,
                ..self
            },
        }
    }

    /// The participant holds no more shares of `asset` than `bank` has issued.
    pub open spec fn within(self, bank: Bank, asset: Asset) -> bool {
        &&& self.slot(asset).deposited_shares <= bank.total_deposited_shares
        &&& self.slot(asset).borrowed_shares <= bank.total_borrowed_shares
    }

    /// The asset that `mint` stands for in this position.
    pub fn asset_for_mint(&self, mint: &[u8; 32]) -> (r: Asset)
        ensures
            r == self.asset_of(mint@),
    {
        if same_key(mint, &self.usdc_address) {
            Asset::Usdc
        } else {
            Asset::Sol
        }
    }

    /// The part of the position held in `asset`.
    pub fn position(&self, asset: Asset) -> (r: Position)
        ensures
            r == self.slot(asset),
    {
        match asset {
            Asset::Sol => Position {
                deposited: self.deposited_sol,
                deposited_shares: self.deposited_sol_shares,
                borrowed: self.borrowed_sol,
                borrowed_shares: self.borrowed_sol_shares,
            },
            Asset::Usdc => Position {
                deposited: self.deposited_usdc,
                deposited_shares: self.deposited_usdc_shares,
                borrowed: self.borrowed_usdc,
                borrowed_shares: self.borrowed_usdc_shares,
            },
        }
    }

    /// This position with the part held in `asset` replaced; the other
    /// asset's fields are never touched.
    pub fn with_position(&self, asset: Asset, p: Position) -> (r: User)
        ensures
            r == self.with_slot(asset, p),
            r.slot(asset) == p,
            r.slot(asset.other()) == self.slot(asset.other()),
    {
        let mut next: User = *self;
        match asset {
            Asset::Sol => {
                next.deposited_sol = p.deposited;
                next.deposited_sol_shares = p.deposited_shares;
                next.borrowed_sol = p.borrowed;
                next.borrowed_sol_shares = p.borrowed_shares;
            },
            Asset::Usdc => {
                next.deposited_usdc = p.deposited;
                next.deposited_usdc_shares = p.deposited_shares;
                next.borrowed_usdc = p.borrowed;
                next.borrowed_usdc_shares = p.borrowed_shares;
            },
        }
        next
    }
}

impl Bank {
    /// On each side, shares have been issued exactly when value is held.
    pub open spec fn well_formed(self) -> bool {
        &&& self.total_deposited_shares == 0 <==> self.total_deposited == 0
        &&& self.total_borrowed_shares == 0 <==> self.total_borrowed == 0
    }

    /// This pool with interest added to both totals up to `now`, or the
    /// reason it cannot be added.
    pub open spec fn accrued(self, now: i64) -> Result<Bank, ErrorCode> {
        match accrue_spec(self.total_deposited, self.interest_rate, now - self.last_updated) {
            Err(e) => Err(e),
            Ok(deposited) => match accrue_spec(
                self.total_borrowed,
                self.interest_rate,
                now - self.last_updated,
            ) {
                Err(e) => Err(e),
                Ok(borrowed) => Ok(
                    Bank {
                        total_deposited: deposited,
                        total_borrowed: borrowed,
                        last_updated: now,
                        ..self
                    },
                ),
            },
        }
    }

    /// Brings both totals up to `now` at the pool's rate. Share counts stay,
    /// so each share is worth no less than before.
    pub fn accrue_interest(&self, now: i64) -> (r: Result<Bank, ErrorCode>)
        ensures
            r == self.accrued(now),
            r matches Ok(b) ==> {
                &&& b.total_deposited >= self.total_deposited
                &&& b.total_borrowed >= self.total_borrowed
                &&& (self.well_formed() ==> b.well_formed())
            },
    {
        proof {
            lemma_accrue_grows(self.total_deposited, self.interest_rate, now - self.last_updated);
            lemma_accrue_grows(self.total_borrowed, self.interest_rate, now - self.last_updated);
        }
        let deposited: u64 = match calculate_accrued_interest(
            self.total_deposited,
            self.interest_rate,
            self.last_updated,
            now,
        ) {
            Ok(v) => v,
            Err(e) => { return Err(e); },
        };
        let borrowed: u64 = match calculate_accrued_interest(
            self.total_borrowed,
            self.interest_rate,
            self.last_updated,
            now,
        ) {
            Ok(v) => v,
            Err(e) => { return Err(e); },
        };
        let mut next: Bank = *self;
        next.total_deposited = deposited;
        next.total_borrowed = borrowed;
        next.last_updated = now;
        Ok(next)
    }
}

} // verus!
