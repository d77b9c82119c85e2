//! Fixed-point arithmetic: scaled 256-bit decimals and rates.
//!
//! All quantities carry an implicit scale of `10^18` (one "WAD").  Every
//! operation detects overflow, underflow and division by zero and fails with
//! [`crate::error::LendingError::MathOverflow`] instead of wrapping.

pub mod common;
pub mod decimal;
pub mod rate;
pub mod uint256;

pub use decimal::Decimal;
pub use rate::Rate;

use vstd::prelude::*;
use crate::error::LendingError;

verus! {

/// Checked addition; fails on overflow instead of wrapping.
pub trait TryAdd: Sized {
    /// Add.
    fn try_add(self, rhs: Self) -> Result<Self, LendingError>;
}

/// Checked subtraction; fails on underflow instead of wrapping.
pub trait TrySub: Sized {
    /// Subtract.
    fn try_sub(self, rhs: Self) -> Result<Self, LendingError>;
}

/// Checked division; fails on overflow or division by zero.
pub trait TryDiv<Rhs = Self>: Sized {
    /// Divide.
    fn try_div(self, rhs: Rhs) -> Result<Self, LendingError>;
}

/// Checked multiplication; fails on overflow.
pub trait TryMul<Rhs = Self>: Sized {
    /// Multiply.
    fn try_mul(self, rhs: Rhs) -> Result<Self, LendingError>;
}

} // verus!
