//! Interest rates and ratios as scaled values.

use vstd::prelude::*;
use crate::error::LendingError;
use crate::math::common::{WAD, PERCENT_SCALER, wad_mul_ok, wad_mul, wad_div_ok, wad_div};
use crate::math::uint256::{Uint256, u256_limit, u128_limit, u256_checked_add, u256_checked_sub,
    u256_checked_mul, u256_checked_div};
use crate::math::decimal::Decimal;
use crate::math::{TryAdd, TrySub, TryMul, TryDiv};

verus! {

/// Ratio or percentage (interest rate, loan-to-value) scaled by `10^18`.
#[derive(Clone, Copy, Debug, Default, PartialEq, Eq, Structural, Hash, PartialOrd, Ord)]
pub struct Rate(pub Uint256);

/// One step-by-step unfolding of exponentiation by squaring over scaled
/// values: multiply `result` by `base` when the exponent is odd, square
/// `base`, halve the exponent.  `None` marks the first overflow of any
/// intermediate product, which aborts the whole computation.
pub open spec fn pow_step(result: nat, base: nat, exp: nat) -> Option<nat>
    decreases exp,
{
    if exp == 0 {
        Some(result)
    } else {
        let with_factor = if exp % 2 == 1 {
            if wad_mul_ok(result, base) {
                Some(wad_mul(result, base))
            } else {
                None::<nat>
            }
        } else {
            Some(result)
        };
        match with_factor {
            Some(next_result) => {
                if wad_mul_ok(base, base) {
                    pow_step(next_result, wad_mul(base, base), exp / 2)
                } else {
                    None
                }
            },
            None => None,
        }
    }
}

impl Rate {
    /// Raw scaled value: the represented ratio times `10^18`.
    pub open spec fn val(self) -> nat {
        self.0.as_nat()
    }

    /// One (100%).
    pub fn one() -> (r: Self)
        ensures
            r.val() == WAD,
    {
        Rate(Rate::wad())
    }

    /// Zero (0%).
    pub fn zero() -> (r: Self)
        ensures
            r.val() == 0,
    {
        Rate(Uint256::zero())
    }

    /// One, as a raw 256-bit value.
    pub(crate) fn wad() -> (r: Uint256)
        ensures
            r.as_nat() == WAD,
    {
        Uint256::from_u64(WAD)
    }

    /// Create a rate from a percent value.
    pub fn from_percent(percent: u8) -> (r: Self)
        ensures
            r.val() == percent * PERCENT_SCALER,
    {
        Rate(Uint256::from_u64(percent as u64 * PERCENT_SCALER))
    }

    /// Return the raw scaled value; it must fit into 128 bits.
    pub fn to_scaled_val(&self) -> (r: u128)
        requires
            self.val() < u128_limit(),
        ensures
            r == self.val(),
    {
        self.0.as_u128()
    }

    /// Create a rate from a raw scaled value.
    pub fn from_scaled_val(scaled_val: u128) -> (r: Self)
        ensures
            r.val() == scaled_val,
    {
        Rate(Uint256::from_u128(scaled_val))
    }

    /// Embed an unscaled 64-bit quantity; the scaled value never overflows.
    pub fn from_u64(val: u64) -> (r: Self)
        ensures
            r.val() == val * (WAD as nat),
    {
        proof {
            assert(val * (WAD as nat) < u256_limit()) by (nonlinear_arith)
                requires
                    val <= u64::MAX,
            ;
        }
        match u256_checked_mul(Rate::wad(), Uint256::from_u64(val)) {
            Some(v) => Rate(v),
            None => Rate(Uint256::zero()),
        }
    }

    /// Whether the value is zero.
    pub fn is_zero(&self) -> (b: bool)
        ensures
            b <==> self.val() == 0,
    {
        self.0.is_zero()
    }

    /// Reinterpret a decimal as a rate; the scaled value is kept exactly.
    pub fn from_decimal(decimal: Decimal) -> (r: Self)
        ensures
            r.val() == decimal.val(),
    {
        Rate(decimal.0)
    }

    /// Raise the rate to an integer power by squaring, with every
    /// intermediate product checked for overflow.
    pub fn try_pow(&self, exponent: u64) -> (r: Result<Self, LendingError>)
        ensures
            pow_step(WAD as nat, self.val(), exponent as nat) matches Some(v) ==> (r matches Ok(
            p) && p.val() == v),
            pow_step(WAD as nat, self.val(), exponent as nat) is None ==> (r matches Err(e)
                && e == LendingError::MathOverflow),
    {
        if exponent == 0 {
            return Ok(Self::one());
        }
        let mut result = Self::one();
        let mut base = *self;
        let mut exp = exponent;
        while exp > 0
            invariant
                pow_step(result.val(), base.val(), exp as nat) == pow_step(
                    WAD as nat,
                    self.val(),
                    exponent as nat,
                ),
            decreases exp,
        {
            if exp % 2 == 1 {
                result = match result.try_mul(base) {
                    Ok(next) => next,
                    Err(e) => {
                        return Err(e);
                    },
                };
            }
            base = match base.try_mul(base) {
                Ok(next) => next,
                Err(e) => {
                    return Err(e);
                },
            };
            exp = exp / 2;
        }
        Ok(result)
    }
}

impl TryAdd for Rate {
    /// Checked addition of scaled values.
    fn try_add(self, rhs: Self) -> (r: Result<Self, LendingError>)
        ensures
            self.val() + rhs.val() < u256_limit() ==> (r matches Ok(d) && d.val() == self.val()
                + rhs.val()),
            self.val() + rhs.val() >= u256_limit() ==> (r matches Err(e) && e
                == LendingError::MathOverflow),
    {
        match u256_checked_add(self.0, rhs.0) {
            Some(s) => Ok(Rate(s)),
            None => Err(LendingError::MathOverflow),
        }
    }
}

impl TrySub for Rate {
    /// Checked subtraction of scaled values.
    fn try_sub(self, rhs: Self) -> (r: Result<Self, LendingError>)
        ensures
            self.val() >= rhs.val() ==> (r matches Ok(d) && d.val() == self.val() - rhs.val()),
            self.val() < rhs.val() ==> (r matches Err(e) && e == LendingError::MathOverflow),
    {
        match u256_checked_sub(self.0, rhs.0) {
            Some(s) => Ok(Rate(s)),
            None => Err(LendingError::MathOverflow),
        }
    }
}

impl TryDiv<u64> for Rate {
    /// Checked division of the scaled value by an unscaled divisor.
    fn try_div(self, rhs: u64) -> (r: Result<Self, LendingError>)
        ensures
            rhs != 0 ==> (r matches Ok(d) && d.val() == self.val() / (rhs as nat)),
            rhs == 0 ==> (r matches Err(e) && e == LendingError::MathOverflow),
    {
        match u256_checked_div(self.0, Uint256::from_u64(rhs)) {
            Some(q) => Ok(Rate(q)),
            None => Err(LendingError::MathOverflow),
        }
    }
}

impl TryDiv<Rate> for Rate {
    /// Checked scaled division: the quotient keeps the `10^18` scale.
    fn try_div(self, rhs: Self) -> (r: Result<Self, LendingError>)
        ensures
            wad_div_ok(self.val(), rhs.val()) ==> (r matches Ok(d) && d.val() == wad_div(
                self.val(), rhs.val())),
            !wad_div_ok(self.val(), rhs.val()) ==> (r matches Err(e) && e
                == LendingError::MathOverflow),
    {
        let scaled = match u256_checked_mul(self.0, Rate::wad()) {
            Some(p) => p,
            None => {
                return Err(LendingError::MathOverflow);
            },
        };
        match u256_checked_div(scaled, rhs.0) {
            Some(q) => Ok(Rate(q)),
            None => Err(LendingError::MathOverflow),
        }
    }
}

impl TryMul<u64> for Rate {
    /// Checked multiplication of the scaled value by an unscaled factor.
    fn try_mul(self, rhs: u64) -> (r: Result<Self, LendingError>)
        ensures
            self.val() * rhs < u256_limit() ==> (r matches Ok(d) && d.val() == self.val()
                * rhs),
            self.val() * rhs >= u256_limit() ==> (r matches Err(e) && e
                == LendingError::MathOverflow),
    {
        match u256_checked_mul(self.0, Uint256::from_u64(rhs)) {
            Some(p) => Ok(Rate(p)),
            None => Err(LendingError::MathOverflow),
        }
    }
}

impl TryMul<Rate> for Rate {
    /// Checked scaled multiplication: the product keeps the `10^18` scale.
    fn try_mul(self, rhs: Self) -> (r: Result<Self, LendingError>)
        ensures
            wad_mul_ok(self.val(), rhs.val()) ==> (r matches Ok(d) && d.val() == wad_mul(
                self.val(), rhs.val())),
            !wad_mul_ok(self.val(), rhs.val()) ==> (r matches Err(e) && e
                == LendingError::MathOverflow),
    {
        let product = match u256_checked_mul(self.0, rhs.0) {
            Some(p) => p,
            None => {
                return Err(LendingError::MathOverflow);
            },
        };
        match u256_checked_div(product, Rate::wad()) {
            Some(q) => Ok(Rate(q)),
            None => {
                proof {
                    assert(false);
                }
                Err(LendingError::MathOverflow)
            },
        }
    }
}

} // verus!
