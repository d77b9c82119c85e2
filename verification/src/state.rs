//! Ledger state: staleness markers, the lending-market record and user
//! obligations.

pub mod last_update;
pub mod lending_market;
pub mod obligation;

use vstd::prelude::*;

verus! {

/// Collateral tokens are initially valued at this ratio of collateral to
/// liquidity.
pub const INITIAL_COLLATERAL_RATIO: u64 = 1;

/// Scaled representation of the initial collateral ratio: the ratio times
/// one WAD.
pub const INITIAL_COLLATERAL_RATE: u128 = 1_000_000_000_000_000_000;

/// Current version of the program and all new accounts created.
pub const PROGRAM_VERSION: u8 = 1;

/// Accounts are created with data zeroed out, so uninitialized state
/// instances will have the version set to 0.
pub const UNINITIALIZED_VERSION: u8 = 0;

/// Number of slots per year, used for interest compounding.
pub const SLOTS_PER_YEAR: u64 = 31_536_000;

} // verus!
