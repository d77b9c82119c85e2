//! Large decimal values, precise to 18 digits.

use vstd::prelude::*;
use crate::error::LendingError;
use crate::math::common::{WAD, HALF_WAD, PERCENT_SCALER, wad_mul_ok, wad_mul, wad_div_ok, wad_div};
use crate::math::uint256::{Uint256, u256_limit, u128_limit, u256_checked_add, u256_checked_sub,
    u256_checked_mul, u256_checked_div};
use crate::math::rate::Rate;
use crate::math::{TryAdd, TrySub, TryMul, TryDiv};

verus! {

/// Absolute quantity (token amount, valuation) scaled by `10^18`.
#[derive(Clone, Copy, Debug, Default, PartialEq, Eq, Structural, Hash, PartialOrd, Ord)]
pub struct Decimal(pub Uint256);

impl Decimal {
    /// Raw scaled value: the represented quantity times `10^18`.
    pub open spec fn val(self) -> nat {
        self.0.as_nat()
    }

    /// One.
    pub fn one() -> (r: Self)
        ensures
            r.val() == WAD,
    {
        Decimal(Uint256::from_u64(WAD))
    }

    /// Zero.
    pub fn zero() -> (r: Self)
        ensures
            r.val() == 0,
    {
        Decimal(Uint256::zero())
    }

    /// One, as a raw 256-bit value.
    pub fn wad() -> (r: Uint256)
        ensures
            r.as_nat() == WAD,
    {
        Uint256::from_u64(WAD)
    }

    /// One half, as a raw 256-bit value.
    pub fn half_wad() -> (r: Uint256)
        ensures
            r.as_nat() == HALF_WAD,
    {
        Uint256::from_u64(HALF_WAD)
    }

    /// Create a scaled decimal from a percent value.
    pub fn from_percent(percent: u8) -> (r: Self)
        ensures
            r.val() == percent * PERCENT_SCALER,
    {
        Decimal(Uint256::from_u64(percent as u64 * PERCENT_SCALER))
    }

    /// Return the raw scaled value; it must fit into 128 bits.
    pub fn to_scaled_val(&self) -> (r: u128)
        requires
            self.val() < u128_limit(),
        ensures
            r == self.val(),
    {
        self.0.as_u128()
    }

    /// Create a decimal from a raw scaled value.
    pub fn from_scaled_val(scaled_val: u128) -> (r: Self)
        ensures
            r.val() == scaled_val,
    {
        Decimal(Uint256::from_u128(scaled_val))
    }

    /// Embed an unscaled 64-bit quantity; the scaled value never overflows.
    pub fn from_u64(val: u64) -> (r: Self)
        ensures
            r.val() == val * (WAD as nat),
    {
        proof {
            assert(val * (WAD as nat) < u256_limit()) by (nonlinear_arith)
                requires
                    val <= u64::MAX,
            ;
        }
        match u256_checked_mul(Decimal::wad(), Uint256::from_u64(val)) {
            Some(v) => Decimal(v),
            None => Decimal(Uint256::zero()),
        }
    }

    /// Embed an unscaled 128-bit quantity; the scaled value never overflows.
    pub fn from_u128(val: u128) -> (r: Self)
        ensures
            r.val() == val * (WAD as nat),
    {
        proof {
            assert(val * (WAD as nat) < u256_limit()) by (nonlinear_arith)
                requires
                    val <= u128::MAX,
            ;
        }
        match u256_checked_mul(Decimal::wad(), Uint256::from_u128(val)) {
            Some(v) => Decimal(v),
            None => Decimal(Uint256::zero()),
        }
    }

    /// Reinterpret a rate as a decimal; the scaled value is kept exactly.
    pub fn from_rate(rate: Rate) -> (r: Self)
        ensures
            r.val() == rate.val(),
    {
        Decimal(rate.0)
    }

    /// Whether the value is zero.
    pub fn is_zero(&self) -> (b: bool)
        ensures
            b <==> self.val() == 0,
    {
        self.0.is_zero()
    }

    /// Strictly less than.
    pub fn lt(&self, other: &Self) -> (b: bool)
        ensures
            b <==> self.val() < other.val(),
    {
        self.0.lt(&other.0)
    }

    /// Less than or equal.
    pub fn le(&self, other: &Self) -> (b: bool)
        ensures
            b <==> self.val() <= other.val(),
    {
        self.0.le(&other.0)
    }

    /// Strictly greater than.
    pub fn gt(&self, other: &Self) -> (b: bool)
        ensures
            b <==> self.val() > other.val(),
    {
        self.0.gt(&other.0)
    }

    /// Greater than or equal.
    pub fn ge(&self, other: &Self) -> (b: bool)
        ensures
            b <==> self.val() >= other.val(),
    {
        self.0.ge(&other.0)
    }

    /// The smaller of two decimals.
    pub fn min(self, other: Self) -> (r: Self)
        ensures
            r.val() == if self.val() <= other.val() {
                self.val()
            } else {
                other.val()
            },
            r == self || r == other,
    {
        Decimal(self.0.min(other.0))
    }

    /// Round the scaled decimal to the nearest unscaled 64-bit value, halves
    /// rounding up.
    pub fn try_round_u64(&self) -> (r: Result<u64, LendingError>)
        ensures
            self.val() + HALF_WAD < u256_limit() && ((self.val() + HALF_WAD) as nat) / (
            WAD as nat) <= u64::MAX ==> (r matches Ok(v) && v == ((self.val() + HALF_WAD) as nat)
                / (WAD as nat)),
            !(self.val() + HALF_WAD < u256_limit() && ((self.val() + HALF_WAD) as nat) / (
            WAD as nat) <= u64::MAX) ==> (r matches Err(e) && e == LendingError::MathOverflow),
    {
        let sum = match u256_checked_add(Decimal::half_wad(), self.0) {
            Some(s) => s,
            None => {
                return Err(LendingError::MathOverflow);
            },
        };
        let rounded_val = match u256_checked_div(sum, Decimal::wad()) {
            Some(q) => q,
            None => {
                return Err(LendingError::MathOverflow);
            },
        };
        if rounded_val.gt(&Uint256::from_u64(u64::MAX)) {
            return Err(LendingError::MathOverflow);
        }
        Ok(rounded_val.as_u64())
    }

    /// Round the scaled decimal up to an unscaled 64-bit value.
    pub fn try_ceil_u64(&self) -> (r: Result<u64, LendingError>)
        ensures
            self.val() + (WAD - 1) < u256_limit() && ((self.val() + (WAD - 1)) as nat) / (
            WAD as nat) <= u64::MAX ==> (r matches Ok(v) && v == ((self.val() + (WAD - 1)) as nat)
                / (WAD as nat)),
            !(self.val() + (WAD - 1) < u256_limit() && ((self.val() + (WAD - 1)) as nat) / (
            WAD as nat) <= u64::MAX) ==> (r matches Err(e) && e == LendingError::MathOverflow),
    {
        let almost_one = match u256_checked_sub(Decimal::wad(), Uint256::from_u64(1)) {
            Some(d) => d,
            None => {
                return Err(LendingError::MathOverflow);
            },
        };
        let sum = match u256_checked_add(almost_one, self.0) {
            Some(s) => s,
            None => {
                return Err(LendingError::MathOverflow);
            },
        };
        let ceil_val = match u256_checked_div(sum, Decimal::wad()) {
            Some(q) => q,
            None => {
                return Err(LendingError::MathOverflow);
            },
        };
        if ceil_val.gt(&Uint256::from_u64(u64::MAX)) {
            return Err(LendingError::MathOverflow);
        }
        Ok(ceil_val.as_u64())
    }

    /// Round the scaled decimal down to an unscaled 64-bit value.
    pub fn try_floor_u64(&self) -> (r: Result<u64, LendingError>)
        ensures
            self.val() / (WAD as nat) <= u64::MAX ==> (r matches Ok(v) && v == self.val() / (
            WAD as nat)),
            self.val() / (WAD as nat) > u64::MAX ==> (r matches Err(e) && e
                == LendingError::MathOverflow),
    {
        let floor_val = match u256_checked_div(self.0, Decimal::wad()) {
            Some(q) => q,
            None => {
                return Err(LendingError::MathOverflow);
            },
        };
        if floor_val.gt(&Uint256::from_u64(u64::MAX)) {
            return Err(LendingError::MathOverflow);
        }
        Ok(floor_val.as_u64())
    }
}

impl TryAdd for Decimal {
    /// Checked addition of scaled values.
    fn try_add(self, rhs: Self) -> (r: Result<Self, LendingError>)
        ensures
            self.val() + rhs.val() < u256_limit() ==> (r matches Ok(d) && d.val() == self.val()
                + rhs.val()),
            self.val() + rhs.val() >= u256_limit() ==> (r matches Err(e) && e
                == LendingError::MathOverflow),
    {
        match u256_checked_add(self.0, rhs.0) {
            Some(s) => Ok(Decimal(s)),
            None => Err(LendingError::MathOverflow),
        }
    }
}

impl TrySub for Decimal {
    /// Checked subtraction of scaled values.
    fn try_sub(self, rhs: Self) -> (r: Result<Self, LendingError>)
        ensures
            self.val() >= rhs.val() ==> (r matches Ok(d) && d.val() == self.val() - rhs.val()),
            self.val() < rhs.val() ==> (r matches Err(e) && e == LendingError::MathOverflow),
    {
        match u256_checked_sub(self.0, rhs.0) {
            Some(s) => Ok(Decimal(s)),
            None => Err(LendingError::MathOverflow),
        }
    }
}

impl TryDiv<u64> for Decimal {
    /// Checked division of the scaled value by an unscaled divisor.
    fn try_div(self, rhs: u64) -> (r: Result<Self, LendingError>)
        ensures
            rhs != 0 ==> (r matches Ok(d) && d.val() == self.val() / (rhs as nat)),
            rhs == 0 ==> (r matches Err(e) && e == LendingError::MathOverflow),
    {
        match u256_checked_div(self.0, Uint256::from_u64(rhs)) {
            Some(q) => Ok(Decimal(q)),
            None => Err(LendingError::MathOverflow),
        }
    }
}

impl TryDiv<Decimal> for Decimal {
    /// Checked scaled division: the quotient keeps the `10^18` scale.
    fn try_div(self, rhs: Self) -> (r: Result<Self, LendingError>)
        ensures
            wad_div_ok(self.val(), rhs.val()) ==> (r matches Ok(d) && d.val() == wad_div(
                self.val(), rhs.val())),
            !wad_div_ok(self.val(), rhs.val()) ==> (r matches Err(e) && e
                == LendingError::MathOverflow),
    {
        let scaled = match u256_checked_mul(self.0, Decimal::wad()) {
            Some(p) => p,
            None => {
                return Err(LendingError::MathOverflow);
            },
        };
        match u256_checked_div(scaled, rhs.0) {
            Some(q) => Ok(Decimal(q)),
            None => Err(LendingError::MathOverflow),
        }
    }
}

impl TryDiv<Rate> for Decimal {
    /// Checked scaled division by a rate.
    fn try_div(self, rhs: Rate) -> (r: Result<Self, LendingError>)
        ensures
            wad_div_ok(self.val(), rhs.val()) ==> (r matches Ok(d) && d.val() == wad_div(
                self.val(), rhs.val())),
            !wad_div_ok(self.val(), rhs.val()) ==> (r matches Err(e) && e
                == LendingError::MathOverflow),
    {
        self.try_div(Decimal::from_rate(rhs))
    }
}

impl TryMul<u64> for Decimal {
    /// Checked multiplication of the scaled value by an unscaled factor.
    fn try_mul(self, rhs: u64) -> (r: Result<Self, LendingError>)
        ensures
            self.val() * rhs < u256_limit() ==> (r matches Ok(d) && d.val() == self.val()
                * rhs),
            self.val() * rhs >= u256_limit() ==> (r matches Err(e) && e
                == LendingError::MathOverflow),
    {
        match u256_checked_mul(self.0, Uint256::from_u64(rhs)) {
            Some(p) => Ok(Decimal(p)),
            None => Err(LendingError::MathOverflow),
        }
    }
}

impl TryMul<Decimal> for Decimal {
    /// Checked scaled multiplication: the product keeps the `10^18` scale.
    fn try_mul(self, rhs: Self) -> (r: Result<Self, LendingError>)
        ensures
            wad_mul_ok(self.val(), rhs.val()) ==> (r matches Ok(d) && d.val() == wad_mul(
                self.val(), rhs.val())),
            !wad_mul_ok(self.val(), rhs.val()) ==> (r matches Err(e) && e
                == LendingError::MathOverflow),
    {
        let product = match u256_checked_mul(self.0, rhs.0) {
            Some(p) => p,
            None => {
                return Err(LendingError::MathOverflow);
            },
        };
        match u256_checked_div(product, Decimal::wad()) {
            Some(q) => Ok(Decimal(q)),
            None => {
                proof {
                    assert(false);
                }
                Err(LendingError::MathOverflow)
            },
        }
    }
}

/// Overflow safety: whenever the raw product of two decimals leaves the
/// 256-bit range, the scaled product is undefined and the contract of
/// `try_mul` forces the overflow failure instead of a wrapped value.
pub proof fn lemma_mul_overflow_fails(a: Decimal, b: Decimal)
    requires
        a.val() * b.val() >= u256_limit(),
    ensures
        !wad_mul_ok(a.val(), b.val()),
{
}

impl TryMul<Rate> for Decimal {
    /// Checked scaled multiplication by a rate.
    fn try_mul(self, rhs: Rate) -> (r: Result<Self, LendingError>)
        ensures
            wad_mul_ok(self.val(), rhs.val()) ==> (r matches Ok(d) && d.val() == wad_mul(
                self.val(), rhs.val())),
            !wad_mul_ok(self.val(), rhs.val()) ==> (r matches Err(e) && e
                == LendingError::MathOverflow),
    {
        self.try_mul(Decimal::from_rate(rhs))
    }
}

} // verus!
