//! Listing an asset and opening a position.

use vstd::prelude::*;
use crate::interest::DEFAULT_INTEREST_RATE;
use crate::state::{Asset, Bank, User};

verus! {

/// Who lists an asset, and which mint is listed.
#[derive(Clone, Copy, Debug, PartialEq, Eq)]
pub struct InitializeBank {
    pub signer: [u8; 32],
    pub mint: [u8; 32],
}

/// Who opens a position.
#[derive(Clone, Copy, Debug, PartialEq, Eq)]
pub struct InitializeUser {
    pub signer: [u8; 32],
}

/// A pool as it is when its asset is listed: nothing deposited or borrowed,
/// the given limits, and the default interest rate.
pub open spec fn new_bank(
    authority: [u8; 32],
    mint: [u8; 32],
    liquidation_threshold: u64,
    max_ltv: u64,
) -> Bank {
    Bank {
        authority: authority,
        mint_address: mint,
        total_deposited: 0,
        total_deposited_shares: 0,
        total_borrowed: 0,
        total_borrowed_shares: 0,
        liquidation_threshold: liquidation_threshold,
        liquidation_bonus: 0,
        liquidation_close_factor: 0,
        max_ltv: max_ltv,
        last_updated: 0,
        interest_rate: DEFAULT_INTEREST_RATE,
    }
}

/// A position as it is when a participant first appears: empty.
pub open spec fn new_user(owner: [u8; 32], usdc_address: [u8; 32]) -> User {
    User {
        owner: owner,
        deposited_sol: 0,
        borrowed_sol: 0,
        deposited_sol_shares: 0,
        borrowed_sol_shares: 0,
        deposited_usdc: 0,
        borrowed_usdc: 0,
        deposited_usdc_shares: 0,
        borrowed_usdc_shares: 0,
        usdc_address: usdc_address,
        last_updated: 0,
        last_updated_borrow: 0,
    }
}

/// Lists an asset: an empty pool for the mint, under the signer's authority.
pub fn process_init_bank(ctx: &InitializeBank, liquidation_threshold: u64, max_ltv: u64) -> (bank: Bank)
    ensures
        bank == new_bank(ctx.signer, ctx.mint, liquidation_threshold, max_ltv),
        bank.well_formed(),
{
    Bank {
        authority: ctx.signer,
        mint_address: ctx.mint,
        total_deposited: 0,
        total_deposited_shares: 0,
        total_borrowed: 0,
        total_borrowed_shares: 0,
        liquidation_threshold: liquidation_threshold,
        liquidation_bonus: 0,
        liquidation_close_factor: 0,
        max_ltv: max_ltv,
        last_updated: 0,
        interest_rate: DEFAULT_INTEREST_RATE,
    }
}

/// Opens an empty position for the signer, who names the mint that counts as
/// USDC.
pub fn process_init_user(ctx: &InitializeUser, usdc_address: [u8; 32]) -> (user: User)
    ensures
        user == new_user(ctx.signer, usdc_address),
        forall|bank: Bank, asset: Asset| #[trigger] user.within(bank, asset),
{
    User {
        owner: ctx.signer,
        deposited_sol: 0,
        borrowed_sol: 0,
        deposited_sol_shares: 0,
        borrowed_sol_shares: 0,
        deposited_usdc: 0,
        borrowed_usdc: 0,
        deposited_usdc_shares: 0,
        borrowed_usdc_shares: 0,
        usdc_address: usdc_address,
        last_updated: 0,
        last_updated_borrow: 0,
    }
}

} // verus!
