//! The lending-market record: version, owner and collaborator identities.

use vstd::prelude::*;
use crate::state::PROGRAM_VERSION;

verus! {

/// Lending market storage.
#[derive(Clone, Copy, Debug, PartialEq, Eq)]
pub struct LendingMarketModule {
    /// Record version.
    pub version: u8,
    /// Seed the market authority was derived with.
    pub bump_seed: u8,
    /// Market owner identity.
    pub owner: [u8; 32],
    /// Currency the market quotes valuations in.
    pub quote_currency: [u8; 32],
    /// Token-transfer collaborator identity.
    pub token_program_id: [u8; 32],
    /// Price-oracle collaborator identity.
    pub oracle_program_id: [u8; 32],
}

/// Parameters for initializing the lending market.
#[derive(Clone, Copy, Debug, PartialEq, Eq)]
pub struct InitLendingMarketParams {
    /// Seed the market authority was derived with.
    pub bump_seed: u8,
    /// Market owner identity.
    pub owner: [u8; 32],
    /// Currency the market quotes valuations in.
    pub quote_currency: [u8; 32],
    /// Token-transfer collaborator identity.
    pub token_program_id: [u8; 32],
    /// Price-oracle collaborator identity.
    pub oracle_program_id: [u8; 32],
}

impl LendingMarketModule {
    /// Initialize the lending market from the given parameters.
    pub fn init(&mut self, params: InitLendingMarketParams)
        ensures
            final(self).version == PROGRAM_VERSION,
            final(self).bump_seed == params.bump_seed,
            final(self).owner == params.owner,
            final(self).quote_currency == params.quote_currency,
            final(self).token_program_id == params.token_program_id,
            final(self).oracle_program_id == params.oracle_program_id,
    {
        self.version = PROGRAM_VERSION;
        self.bump_seed = params.bump_seed;
        self.owner = params.owner;
        self.quote_currency = params.quote_currency;
        self.token_program_id = params.token_program_id;
        self.oracle_program_id = params.oracle_program_id;
    }

    /// Current record version.
    pub fn get_version(&self) -> (r: u8)
        ensures
            r == self.version,
    {
        self.version
    }

    /// Seed the market authority was derived with.
    pub fn get_bump_seed(&self) -> (r: u8)
        ensures
            r == self.bump_seed,
    {
        self.bump_seed
    }

    /// Market owner identity.
    pub fn get_owner(&self) -> (r: [u8; 32])
        ensures
            r == self.owner,
    {
        self.owner
    }

    /// Currency the market quotes valuations in.
    pub fn get_quote_currency(&self) -> (r: [u8; 32])
        ensures
            r == self.quote_currency,
    {
        self.quote_currency
    }

    /// Token-transfer collaborator identity.
    pub fn get_token_program_id(&self) -> (r: [u8; 32])
        ensures
            r == self.token_program_id,
    {
        self.token_program_id
    }

    /// Price-oracle collaborator identity.
    pub fn get_oracle_program_id(&self) -> (r: [u8; 32])
        ensures
            r == self.oracle_program_id,
    {
        self.oracle_program_id
    }
}

impl Default for LendingMarketModule {
    /// A zeroed, uninitialized market record.
    fn default() -> (r: Self)
        ensures
            r.version == crate::state::UNINITIALIZED_VERSION,
    {
        Self {
            version: crate::state::UNINITIALIZED_VERSION,
            bump_seed: 0,
            owner: [0; 32],
            quote_currency: [0; 32],
            token_program_id: [0; 32],
            oracle_program_id: [0; 32],
        }
    }
}

} // verus!
