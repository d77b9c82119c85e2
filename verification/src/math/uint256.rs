//! A 256-bit unsigned integer, held as two 128-bit halves.
//!
//! Comparisons, conversions and constants are verified directly on the
//! halves.  The four checked arithmetic operations are delegated to
//! `odra::casper_types::U256` behind trusted wrappers whose contracts state
//! the exact mathematical result.

use vstd::prelude::*;
use crate::error::LendingError;
use crate::math::{TryAdd, TrySub};
use casper_types::U256;

verus! {

/// `2^128`, the weight of the upper half.
pub open spec fn u128_limit() -> nat {
    0xffffffffffffffffffffffffffffffff + 1
}

/// Exclusive upper bound of the 256-bit range: `2^256`.
pub open spec fn u256_limit() -> nat {
    u128_limit() * u128_limit()
}

/// Unsigned 256-bit integer with value `hi * 2^128 + lo`.
#[derive(Clone, Copy, Debug, Default, PartialEq, Eq, Structural, Hash, PartialOrd, Ord)]
pub struct Uint256 {
    /// Upper 128 bits.
    pub hi: u128,
    /// Lower 128 bits.
    pub lo: u128,
}

impl Uint256 {
    /// Numeric value represented.
    pub open spec fn as_nat(self) -> nat {
        (self.hi * u128_limit() + self.lo) as nat
    }

    /// Every representable value lies below `2^256`.
    pub proof fn lemma_as_nat_bound(self)
        ensures
            self.as_nat() < u256_limit(),
    {
        let c = u128_limit();
        assert(self.hi * c + self.lo < c * c) by (nonlinear_arith)
            requires
                self.hi < c,
                self.lo < c,
                c > 0,
        ;
    }

    /// Distinct halves represent distinct values, and the numeric order of
    /// values is the lexicographic order of the halves.
    pub proof fn lemma_cmp(self, other: Uint256)
        ensures
            self.as_nat() == other.as_nat() <==> (self.hi == other.hi && self.lo == other.lo),
            self.as_nat() < other.as_nat() <==> (self.hi < other.hi
                || (self.hi == other.hi && self.lo < other.lo)),
    {
        let c = u128_limit();
        assert((self.hi * c + self.lo == other.hi * c + other.lo <==> (self.hi == other.hi
            && self.lo == other.lo)) && (self.hi * c + self.lo < other.hi * c + other.lo <==> (
        self.hi < other.hi || (self.hi == other.hi && self.lo < other.lo)))) by (nonlinear_arith)
            requires
                self.hi < c,
                self.lo < c,
                other.hi < c,
                other.lo < c,
        ;
    }

    /// The value zero.
    pub fn zero() -> (r: Uint256)
        ensures
            r.as_nat() == 0,
    {
        Uint256 { hi: 0, lo: 0 }
    }

    /// The largest representable value, `2^256 - 1`.
    pub fn max_value() -> (r: Uint256)
        ensures
            r.as_nat() == u256_limit() - 1,
    {
        Uint256 { hi: u128::MAX, lo: u128::MAX }
    }

    /// Embed a 64-bit value.
    pub fn from_u64(v: u64) -> (r: Uint256)
        ensures
            r.as_nat() == v,
    {
        Uint256 { hi: 0, lo: v as u128 }
    }

    /// Embed a 128-bit value.
    pub fn from_u128(v: u128) -> (r: Uint256)
        ensures
            r.as_nat() == v,
    {
        Uint256 { hi: 0, lo: v }
    }

    /// Whether the value is zero.
    pub fn is_zero(&self) -> (b: bool)
        ensures
            b <==> self.as_nat() == 0,
    {
        proof {
            self.lemma_cmp(Uint256 { hi: 0, lo: 0 });
        }
        self.hi == 0 && self.lo == 0
    }

    /// Narrow to 64 bits; the value must fit.
    pub fn as_u64(&self) -> (r: u64)
        requires
            self.as_nat() <= u64::MAX,
        ensures
            r == self.as_nat(),
    {
        proof {
            let c = u128_limit();
            assert(self.hi == 0) by (nonlinear_arith)
                requires
                    self.hi * c + self.lo <= u64::MAX,
                    c > u64::MAX,
            ;
        }
        self.lo as u64
    }

    /// Narrow to 128 bits; the value must fit.
    pub fn as_u128(&self) -> (r: u128)
        requires
            self.as_nat() < u128_limit(),
        ensures
            r == self.as_nat(),
    {
        proof {
            let c = u128_limit();
            assert(self.hi == 0) by (nonlinear_arith)
                requires
                    self.hi * c + self.lo < c,
            ;
        }
        self.lo
    }

    /// Strictly less than.
    pub fn lt(&self, other: &Uint256) -> (b: bool)
        ensures
            b <==> self.as_nat() < other.as_nat(),
    {
        proof {
            self.lemma_cmp(*other);
        }
        self.hi < other.hi || (self.hi == other.hi && self.lo < other.lo)
    }

    /// Less than or equal.
    pub fn le(&self, other: &Uint256) -> (b: bool)
        ensures
            b <==> self.as_nat() <= other.as_nat(),
    {
        proof {
            self.lemma_cmp(*other);
            other.lemma_cmp(*self);
        }
        self.hi < other.hi || (self.hi == other.hi && self.lo <= other.lo)
    }

    /// Strictly greater than.
    pub fn gt(&self, other: &Uint256) -> (b: bool)
        ensures
            b <==> self.as_nat() > other.as_nat(),
    {
        other.lt(self)
    }

    /// Greater than or equal.
    pub fn ge(&self, other: &Uint256) -> (b: bool)
        ensures
            b <==> self.as_nat() >= other.as_nat(),
    {
        other.le(self)
    }

    /// The smaller of two values.
    pub fn min(self, other: Uint256) -> (r: Uint256)
        ensures
            r.as_nat() == if self.as_nat() <= other.as_nat() {
                self.as_nat()
            } else {
                other.as_nat()
            },
            r == self || r == other,
    {
        if self.lt(&other) {
            self
        } else {
            other
        }
    }
}

/// The 256-bit value representing `v`; meaningful for `v < 2^256`.
pub open spec fn u256_of_nat(v: nat) -> Uint256 {
    Uint256 { hi: (v / u128_limit()) as u128, lo: (v % u128_limit()) as u128 }
}

/// `u256_of_nat` represents exactly the value it was built from.
pub proof fn lemma_u256_of_nat(v: nat)
    requires
        v < u256_limit(),
    ensures
        u256_of_nat(v).as_nat() == v,
{
    let c = u128_limit();
    assert(v / c < c && v % c < c && (v / c) * c + v % c == v) by (nonlinear_arith)
        requires
            v < c * c,
            c > 0,
    ;
    assert(u256_of_nat(v).hi == v / c && u256_of_nat(v).lo == v % c);
}

/// Relies on `casper_types::U256::checked_add` (`uint` crate): the
/// exact sum, or `None` when it would exceed the 256-bit range.
#[verifier::external_body]
pub(crate) fn u256_checked_add(a: Uint256, b: Uint256) -> (r: Option<Uint256>)
    ensures
        r is Some <==> a.as_nat() + b.as_nat() < u256_limit(),
        r matches Some(s) ==> s.as_nat() == a.as_nat() + b.as_nat(),
{
    let x = U256([a.lo as u64, (a.lo >> 64) as u64, a.hi as u64, (a.hi >> 64) as u64]);
    let y = U256([b.lo as u64, (b.lo >> 64) as u64, b.hi as u64, (b.hi >> 64) as u64]);
    match x.checked_add(y) {
        Some(s) => Some(Uint256 { hi: (s >> 128).low_u128(), lo: s.low_u128() }),
        None => None,
    }
}

/// Relies on `casper_types::U256::checked_sub` (`uint` crate): the
/// exact difference, or `None` when the subtrahend is larger.
#[verifier::external_body]
pub(crate) fn u256_checked_sub(a: Uint256, b: Uint256) -> (r: Option<Uint256>)
    ensures
        r is Some <==> a.as_nat() >= b.as_nat(),
        r matches Some(s) ==> s.as_nat() == a.as_nat() - b.as_nat(),
{
    let x = U256([a.lo as u64, (a.lo >> 64) as u64, a.hi as u64, (a.hi >> 64) as u64]);
    let y = U256([b.lo as u64, (b.lo >> 64) as u64, b.hi as u64, (b.hi >> 64) as u64]);
    match x.checked_sub(y) {
        Some(s) => Some(Uint256 { hi: (s >> 128).low_u128(), lo: s.low_u128() }),
        None => None,
    }
}

/// Relies on `casper_types::U256::checked_mul` (`uint` crate): the
/// exact product, or `None` when it would exceed the 256-bit range.
#[verifier::external_body]
pub(crate) fn u256_checked_mul(a: Uint256, b: Uint256) -> (r: Option<Uint256>)
    ensures
        r is Some <==> a.as_nat() * b.as_nat() < u256_limit(),
        r matches Some(s) ==> s.as_nat() == a.as_nat() * b.as_nat(),
{
    let x = U256([a.lo as u64, (a.lo >> 64) as u64, a.hi as u64, (a.hi >> 64) as u64]);
    let y = U256([b.lo as u64, (b.lo >> 64) as u64, b.hi as u64, (b.hi >> 64) as u64]);
    match x.checked_mul(y) {
        Some(s) => Some(Uint256 { hi: (s >> 128).low_u128(), lo: s.low_u128() }),
        None => None,
    }
}

/// Relies on `casper_types::U256::checked_div` (`uint` crate): the
/// quotient rounded toward zero, or `None` when the divisor is zero.
#[verifier::external_body]
pub(crate) fn u256_checked_div(a: Uint256, b: Uint256) -> (r: Option<Uint256>)
    ensures
        r is Some <==> b.as_nat() != 0,
        r matches Some(q) ==> q.as_nat() == a.as_nat() / b.as_nat(),
{
    let x = U256([a.lo as u64, (a.lo >> 64) as u64, a.hi as u64, (a.hi >> 64) as u64]);
    let y = U256([b.lo as u64, (b.lo >> 64) as u64, b.hi as u64, (b.hi >> 64) as u64]);
    match x.checked_div(y) {
        Some(q) => Some(Uint256 { hi: (q >> 128).low_u128(), lo: q.low_u128() }),
        None => None,
    }
}

impl TryAdd for Uint256 {
    /// Checked addition; overflow is reported, never wrapped.
    fn try_add(self, rhs: Self) -> (r: Result<Self, LendingError>)
        ensures
            self.as_nat() + rhs.as_nat() < u256_limit() ==> (r matches Ok(s) && s.as_nat()
                == self.as_nat() + rhs.as_nat()),
            self.as_nat() + rhs.as_nat() >= u256_limit() ==> (r matches Err(e)
                && e == LendingError::MathOverflow),
    {
        match u256_checked_add(self, rhs) {
            Some(s) => Ok(s),
            None => Err(LendingError::MathOverflow),
        }
    }
}

impl TrySub for Uint256 {
    /// Checked subtraction; underflow is reported, never wrapped.
    fn try_sub(self, rhs: Self) -> (r: Result<Self, LendingError>)
        ensures
            self.as_nat() >= rhs.as_nat() ==> (r matches Ok(s) && s.as_nat()
                == self.as_nat() - rhs.as_nat()),
            self.as_nat() < rhs.as_nat() ==> (r matches Err(e)
                && e == LendingError::MathOverflow),
    {
        match u256_checked_sub(self, rhs) {
            Some(s) => Ok(s),
            None => Err(LendingError::MathOverflow),
        }
    }
}

} // verus!
