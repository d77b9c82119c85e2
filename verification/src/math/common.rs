//! Shared scalers and the mathematical meaning of the scaled operations.

use vstd::prelude::*;
use crate::math::uint256::u256_limit;

verus! {

/// Scale of precision.
pub const SCALE: usize = 18;

/// Identity: one, as a scaled value.
pub const WAD: u64 = 1_000_000_000_000_000_000;

/// Half of identity.
pub const HALF_WAD: u64 = 500_000_000_000_000_000;

/// Scale for percentages: one percent, as a scaled value.
pub const PERCENT_SCALER: u64 = 10_000_000_000_000_000;

/// Whether the scaled product of two raw values stays in the 256-bit range.
pub open spec fn wad_mul_ok(a: nat, b: nat) -> bool {
    a * b < u256_limit()
}

/// Scaled multiplication on raw values: `a * b`, scaled back down by one WAD.
pub open spec fn wad_mul(a: nat, b: nat) -> nat {
    (a * b) / (WAD as nat)
}

/// Whether the scaled quotient of two raw values can be computed: scaling the
/// dividend up by one WAD must stay in range and the divisor must be nonzero.
pub open spec fn wad_div_ok(a: nat, b: nat) -> bool {
    a * (WAD as nat) < u256_limit() && b != 0
}

/// Scaled division on raw values: `a`, scaled up by one WAD, over `b`.
pub open spec fn wad_div(a: nat, b: nat) -> nat {
    (a * (WAD as nat)) / b
}

} // verus!
