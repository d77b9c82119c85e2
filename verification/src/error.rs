//! Failure taxonomy of the lending core.
//!
//! Every fallible operation returns one of these variants; nothing is retried
//! inside the core.  Staleness failures are the one category a caller is meant
//! to resolve itself, by refreshing the entity and retrying.

use vstd::prelude::*;

verus! {

/// Closed set of failure conditions raised by the lending core.
#[derive(Clone, Debug, PartialEq, Eq, Structural)]
pub enum LendingError {
    InstructionUnpackError,
    AlreadyInitialized,
    NotRentExempt,
    InvalidMarketAuthority,
    InvalidMarketOwner,
    InvalidAccountOwner,
    InvalidTokenOwner,
    InvalidTokenAccount,
    InvalidTokenMint,
    InvalidTokenProgram,
    InvalidAmount,
    InvalidConfig,
    InvalidSigner,
    InvalidAccountInput,
    MathOverflow,
    TokenInitializeMintFailed,
    TokenInitializeAccountFailed,
    TokenTransferFailed,
    TokenMintToFailed,
    TokenBurnFailed,
    InsufficientLiquidity,
    ReserveCollateralDisabled,
    ReserveStale,
    WithdrawTooSmall,
    WithdrawTooLarge,
    BorrowTooSmall,
    BorrowTooLarge,
    RepayTooSmall,
    LiquidationTooSmall,
    ObligationHealthy,
    ObligationStale,
    ObligationReserveLimit,
    InvalidObligationOwner,
    ObligationDepositsEmpty,
    ObligationBorrowsEmpty,
    ObligationDepositsZero,
    ObligationBorrowsZero,
    InvalidObligationCollateral,
    InvalidObligationLiquidity,
    ObligationCollateralEmpty,
    ObligationLiquidityEmpty,
    NegativeInterestRate,
    InvalidOracleConfig,
    InvalidFlashLoanReceiverProgram,
    NotEnoughLiquidityAfterFlashLoan,
    ExceededSlippage,
    InsufficientCollateral,
}

impl LendingError {
    /// Stable numeric discriminant of each variant, as it crosses the
    /// host-ledger boundary.
    pub open spec fn code_spec(&self) -> u32 {
        match self {
            LendingError::InstructionUnpackError => 0,
            LendingError::AlreadyInitialized => 1,
            LendingError::NotRentExempt => 2,
            LendingError::InvalidMarketAuthority => 3,
            LendingError::InvalidMarketOwner => 4,
            LendingError::InvalidAccountOwner => 5,
            LendingError::InvalidTokenOwner => 6,
            LendingError::InvalidTokenAccount => 7,
            LendingError::InvalidTokenMint => 8,
            LendingError::InvalidTokenProgram => 9,
            LendingError::InvalidAmount => 10,
            LendingError::InvalidConfig => 11,
            LendingError::InvalidSigner => 12,
            LendingError::InvalidAccountInput => 13,
            LendingError::MathOverflow => 14,
            LendingError::TokenInitializeMintFailed => 15,
            LendingError::TokenInitializeAccountFailed => 16,
            LendingError::TokenTransferFailed => 17,
            LendingError::TokenMintToFailed => 18,
            LendingError::TokenBurnFailed => 19,
            LendingError::InsufficientLiquidity => 20,
            LendingError::ReserveCollateralDisabled => 21,
            LendingError::ReserveStale => 22,
            LendingError::WithdrawTooSmall => 23,
            LendingError::WithdrawTooLarge => 24,
            LendingError::BorrowTooSmall => 25,
            LendingError::BorrowTooLarge => 26,
            LendingError::RepayTooSmall => 27,
            LendingError::LiquidationTooSmall => 28,
            LendingError::ObligationHealthy => 29,
            LendingError::ObligationStale => 30,
            LendingError::ObligationReserveLimit => 31,
            LendingError::InvalidObligationOwner => 32,
            LendingError::ObligationDepositsEmpty => 33,
            LendingError::ObligationBorrowsEmpty => 34,
            LendingError::ObligationDepositsZero => 35,
            LendingError::ObligationBorrowsZero => 36,
            LendingError::InvalidObligationCollateral => 37,
            LendingError::InvalidObligationLiquidity => 38,
            LendingError::ObligationCollateralEmpty => 39,
            LendingError::ObligationLiquidityEmpty => 40,
            LendingError::NegativeInterestRate => 41,
            LendingError::InvalidOracleConfig => 42,
            LendingError::InvalidFlashLoanReceiverProgram => 43,
            LendingError::NotEnoughLiquidityAfterFlashLoan => 44,
            LendingError::ExceededSlippage => 45,
            LendingError::InsufficientCollateral => 47,
        }
    }

    /// Stable numeric discriminant of each variant.
    pub fn code(&self) -> (c: u32)
        ensures
            c == self.code_spec(),
    {
        match self {
            LendingError::InstructionUnpackError => 0,
            LendingError::AlreadyInitialized => 1,
            LendingError::NotRentExempt => 2,
            LendingError::InvalidMarketAuthority => 3,
            LendingError::InvalidMarketOwner => 4,
            LendingError::InvalidAccountOwner => 5,
            LendingError::InvalidTokenOwner => 6,
            LendingError::InvalidTokenAccount => 7,
            LendingError::InvalidTokenMint => 8,
            LendingError::InvalidTokenProgram => 9,
            LendingError::InvalidAmount => 10,
            LendingError::InvalidConfig => 11,
            LendingError::InvalidSigner => 12,
            LendingError::InvalidAccountInput => 13,
            LendingError::MathOverflow => 14,
            LendingError::TokenInitializeMintFailed => 15,
            LendingError::TokenInitializeAccountFailed => 16,
            LendingError::TokenTransferFailed => 17,
            LendingError::TokenMintToFailed => 18,
            LendingError::TokenBurnFailed => 19,
            LendingError::InsufficientLiquidity => 20,
            LendingError::ReserveCollateralDisabled => 21,
            LendingError::ReserveStale => 22,
            LendingError::WithdrawTooSmall => 23,
            LendingError::WithdrawTooLarge => 24,
            LendingError::BorrowTooSmall => 25,
            LendingError::BorrowTooLarge => 26,
            LendingError::RepayTooSmall => 27,
            LendingError::LiquidationTooSmall => 28,
            LendingError::ObligationHealthy => 29,
            LendingError::ObligationStale => 30,
            LendingError::ObligationReserveLimit => 31,
            LendingError::InvalidObligationOwner => 32,
            LendingError::ObligationDepositsEmpty => 33,
            LendingError::ObligationBorrowsEmpty => 34,
            LendingError::ObligationDepositsZero => 35,
            LendingError::ObligationBorrowsZero => 36,
            LendingError::InvalidObligationCollateral => 37,
            LendingError::InvalidObligationLiquidity => 38,
            LendingError::ObligationCollateralEmpty => 39,
            LendingError::ObligationLiquidityEmpty => 40,
            LendingError::NegativeInterestRate => 41,
            LendingError::InvalidOracleConfig => 42,
            LendingError::InvalidFlashLoanReceiverProgram => 43,
            LendingError::NotEnoughLiquidityAfterFlashLoan => 44,
            LendingError::ExceededSlippage => 45,
            LendingError::InsufficientCollateral => 47,
        }
    }

    /// Human-readable description of each variant.
    pub fn message(&self) -> (m: &'static str) {
        match self {
            LendingError::InstructionUnpackError => "Failed to unpack instruction data",
            LendingError::AlreadyInitialized => "Account is already initialized",
            LendingError::NotRentExempt => "Lamport balance below rent-exempt threshold",
            LendingError::InvalidMarketAuthority => "Market authority is invalid",
            LendingError::InvalidMarketOwner => "Market owner is invalid",
            LendingError::InvalidAccountOwner => "Input account owner is not the program address",
            LendingError::InvalidTokenOwner => "Input token account is not owned by the correct token program id",
            LendingError::InvalidTokenAccount => "Input token account is not valid",
            LendingError::InvalidTokenMint => "Input token mint account is not valid",
            LendingError::InvalidTokenProgram => "Input token program account is not valid",
            LendingError::InvalidAmount => "Input amount is invalid",
            LendingError::InvalidConfig => "Input config value is invalid",
            LendingError::InvalidSigner => "Input account must be a signer",
            LendingError::InvalidAccountInput => "Invalid account input",
            LendingError::MathOverflow => "Math operation overflow",
            LendingError::TokenInitializeMintFailed => "Token initialize mint failed",
            LendingError::TokenInitializeAccountFailed => "Token initialize account failed",
            LendingError::TokenTransferFailed => "Token transfer failed",
            LendingError::TokenMintToFailed => "Token mint to failed",
            LendingError::TokenBurnFailed => "Token burn failed",
            LendingError::InsufficientLiquidity => "Insufficient liquidity available",
            LendingError::ReserveCollateralDisabled => "Input reserve has collateral disabled",
            LendingError::ReserveStale => "Reserve state needs to be refreshed",
            LendingError::WithdrawTooSmall => "Withdraw amount too small",
            LendingError::WithdrawTooLarge => "Withdraw amount too large",
            LendingError::BorrowTooSmall => "Borrow amount too small to receive liquidity after fees",
            LendingError::BorrowTooLarge => "Borrow amount too large for deposited collateral",
            LendingError::RepayTooSmall => "Repay amount too small to transfer liquidity",
            LendingError::LiquidationTooSmall => "Liquidation amount too small to receive collateral",
            LendingError::ObligationHealthy => "Cannot liquidate healthy obligations",
            LendingError::ObligationStale => "Obligation state needs to be refreshed",
            LendingError::ObligationReserveLimit => "Obligation reserve limit exceeded",
            LendingError::InvalidObligationOwner => "Obligation owner is invalid",
            LendingError::ObligationDepositsEmpty => "Obligation deposits are empty",
            LendingError::ObligationBorrowsEmpty => "Obligation borrows are empty",
            LendingError::ObligationDepositsZero => "Obligation deposits have zero value",
            LendingError::ObligationBorrowsZero => "Obligation borrows have zero value",
            LendingError::InvalidObligationCollateral => "Invalid obligation collateral",
            LendingError::InvalidObligationLiquidity => "Invalid obligation liquidity",
            LendingError::ObligationCollateralEmpty => "Obligation collateral is empty",
            LendingError::ObligationLiquidityEmpty => "Obligation liquidity is empty",
            LendingError::NegativeInterestRate => "Interest rate is negative",
            LendingError::InvalidOracleConfig => "Input oracle config is invalid",
            LendingError::InvalidFlashLoanReceiverProgram => "Input flash loan receiver program account is not valid",
            LendingError::NotEnoughLiquidityAfterFlashLoan => "Not enough liquidity after flash loan",
            LendingError::ExceededSlippage => "Amount smaller than desired slippage limit",
            LendingError::InsufficientCollateral => "Insufficient collateral",
        }
    }
}

} // verus!
