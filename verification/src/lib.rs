//! Accounting and risk-management core of a collateralized lending protocol.
//!
//! The core tracks pooled liquidity reserves, per-user borrowing and
//! collateral positions (obligations), accrues compound interest through a
//! monotone cumulative-rate index, prices positions against an oracle-supplied
//! market price, and decides when and how much of a position may be
//! liquidated.
//!
//! Persistence, token transfers and the oracle service itself are external
//! collaborators: the driver hands the core the current logical time, prices
//! and transfer outcomes as plain values, and the core answers with updated
//! ledgers or a typed failure.

pub mod error;
pub mod math;
pub mod processor;
pub mod pyth;
pub mod state;

use vstd::prelude::*;

verus! {

/// Identity of an account or stored entity on the host ledger, reduced to the
/// stable id that the core compares for equality.
#[derive(Clone, Copy, Debug, PartialEq, Eq, Structural, Hash)]
pub struct Address(pub u64);

} // verus!
