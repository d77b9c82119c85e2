//! The lending market processor: reserves, obligations and every
//! state-transition rule of the protocol.
//!
//! The host ledger supplies each call with the acting identity, the current
//! logical time and the current oracle price as plain values; token transfers
//! are performed by the driver around these calls.

use vstd::prelude::*;
use vstd::pervasive::VecAdditionalExecFns;
use crate::Address;
use crate::error::LendingError;
use crate::math::{Decimal, Rate, TryAdd, TrySub, TryMul, TryDiv};
use crate::math::common::{WAD, PERCENT_SCALER, wad_mul_ok, wad_mul, wad_div_ok, wad_div};
use crate::math::uint256::{Uint256, u256_limit, u128_limit};

verus! {

/// First index of the entry stored under `key`, or -1 when none is.
pub open spec fn pair_key_index<T>(s: Seq<(Address, T)>, key: Address) -> int
    decreases s.len(),
{
    if s.len() == 0 {
        -1
    } else if s[0].0 == key {
        0
    } else if pair_key_index(s.drop_first(), key) == -1 {
        -1
    } else {
        pair_key_index(s.drop_first(), key) + 1
    }
}

/// `pair_key_index` finds the first entry stored under `key`, and -1 only
/// when no entry is.
pub proof fn lemma_pair_key_index<T>(s: Seq<(Address, T)>, key: Address)
    ensures
        pair_key_index(s, key) == -1 ==> forall|j: int| 0 <= j < s.len() ==> s[j].0 != key,
        pair_key_index(s, key) != -1 ==> 0 <= pair_key_index(s, key) < s.len() && s[pair_key_index(
            s,
            key,
        )].0 == key && (forall|j: int| 0 <= j < pair_key_index(s, key) ==> s[j].0 != key),
    decreases s.len(),
{
    if s.len() != 0 && s[0].0 != key {
        let rest = pair_key_index(s.drop_first(), key);
        lemma_pair_key_index(s.drop_first(), key);
        if rest == -1 {
            assert forall|j: int| 0 <= j < s.len() implies s[j].0 != key by {
                if j > 0 {
                    assert(s.drop_first()[j - 1] == s[j]);
                }
            }
        } else {
            assert(s.drop_first()[rest] == s[rest + 1]);
            assert forall|j: int| 0 <= j < rest + 1 implies s[j].0 != key by {
                if j > 0 {
                    assert(s.drop_first()[j - 1] == s[j]);
                }
            }
        }
    }
}

/// Linear scan for the entry stored under `key`.
#[verifier::loop_isolation(false)]
pub(crate) fn find_pair_index<T>(v: &Vec<(Address, T)>, key: Address) -> (r: Option<usize>)
    ensures
        r is None ==> pair_key_index(v@, key) == -1,
        r matches Some(i) ==> i == pair_key_index(v@, key) && i < v@.len() && v@[i as int].0
            == key,
{
    proof {
        lemma_pair_key_index(v@, key);
    }
    let n = v.len();
    let mut i: usize = 0;
    while i < n
        invariant
            i <= n,
            forall|j: int| 0 <= j < i ==> v@[j].0 != key,
        decreases n - i,
    {
        if v[i].0 == key {
            return Some(i);
        }
        i += 1;
    }
    None
}

/// Staleness marker used by reserves and obligations: a reading is stale once
/// the flag is set or the clock has advanced past the recorded slot.
#[derive(Clone, Copy, Debug, PartialEq, Eq, Structural)]
pub struct LastUpdate {
    /// Last slot when updated.
    pub slot: u64,
    /// True when marked stale, false when the slot was updated.
    pub stale: bool,
}

impl LastUpdate {
    /// Whether a reading at `current_slot` must be treated as stale.
    pub open spec fn is_stale_spec(self, current_slot: u64) -> bool {
        self.stale || self.slot < current_slot
    }

    /// Record a refresh at `slot` and clear the stale flag.
    pub fn update_slot(&mut self, slot: u64)
        ensures
            final(self).slot == slot,
            !final(self).stale,
    {
        self.slot = slot;
        self.stale = false;
    }

    /// Set the stale flag without touching the recorded slot.
    pub fn mark_stale(&mut self)
        ensures
            *final(self) == (LastUpdate { stale: true, ..*old(self) }),
    {
        self.stale = true;
    }

    /// Whether the marker is stale at `current_slot`.
    pub fn is_stale(&self, current_slot: u64) -> (r: bool)
        ensures
            r == self.is_stale_spec(current_slot),
    {
        self.stale || self.slot < current_slot
    }
}

/// Fee schedule of a reserve.
#[derive(Clone, Copy, Debug, PartialEq, Eq, Structural)]
pub struct ReserveFees {
    /// Origination fee taken on a borrow, scaled.
    pub borrow_fee_wad: Uint256,
    /// Fee rate taken on a flash loan, scaled.
    pub flash_loan_fee_wad: Uint256,
    /// Share of a fee routed to the host, in percent.
    pub host_fee_percentage: u8,
}

impl ReserveFees {
    /// Split a flash-loan amount into the origination fee and the host fee.
    pub fn calculate_flash_loan_fees(&self, amount: Decimal) -> (r: Result<
        (Decimal, Decimal),
        LendingError,
    >)
        requires
            self.flash_loan_fee_wad.as_nat() < u128_limit(),
        ensures
            !wad_mul_ok(amount.val(), self.flash_loan_fee_wad.as_nat() * (WAD as nat)) ==> (r matches
                Err(e) && e == LendingError::MathOverflow),
            wad_mul_ok(amount.val(), self.flash_loan_fee_wad.as_nat() * (WAD as nat)) && !wad_mul_ok(
                wad_mul(amount.val(), self.flash_loan_fee_wad.as_nat() * (WAD as nat)),
                (self.host_fee_percentage as nat) * (WAD as nat),
            ) ==> (r matches Err(e) && e == LendingError::MathOverflow),
            wad_mul_ok(amount.val(), self.flash_loan_fee_wad.as_nat() * (WAD as nat)) && wad_mul_ok(
                wad_mul(amount.val(), self.flash_loan_fee_wad.as_nat() * (WAD as nat)),
                (self.host_fee_percentage as nat) * (WAD as nat),
            ) && wad_mul(
                wad_mul(amount.val(), self.flash_loan_fee_wad.as_nat() * (WAD as nat)),
                (self.host_fee_percentage as nat) * (WAD as nat),
            ) > wad_mul(amount.val(), self.flash_loan_fee_wad.as_nat() * (WAD as nat)) ==> (r matches
                Err(e) && e == LendingError::MathOverflow),
            wad_mul_ok(amount.val(), self.flash_loan_fee_wad.as_nat() * (WAD as nat)) && wad_mul_ok(
                wad_mul(amount.val(), self.flash_loan_fee_wad.as_nat() * (WAD as nat)),
                (self.host_fee_percentage as nat) * (WAD as nat),
            ) && wad_mul(
                wad_mul(amount.val(), self.flash_loan_fee_wad.as_nat() * (WAD as nat)),
                (self.host_fee_percentage as nat) * (WAD as nat),
            ) <= wad_mul(amount.val(), self.flash_loan_fee_wad.as_nat() * (WAD as nat)) ==> (r matches
                Ok(fees) && fees.0.val() == wad_mul(
                amount.val(),
                self.flash_loan_fee_wad.as_nat() * (WAD as nat),
            ) - wad_mul(
                wad_mul(amount.val(), self.flash_loan_fee_wad.as_nat() * (WAD as nat)),
                (self.host_fee_percentage as nat) * (WAD as nat),
            ) && fees.1.val() == wad_mul(
                wad_mul(amount.val(), self.flash_loan_fee_wad.as_nat() * (WAD as nat)),
                (self.host_fee_percentage as nat) * (WAD as nat),
            )),
    {
        let fee = amount.try_mul(Decimal::from_u128(self.flash_loan_fee_wad.as_u128()))?;
        let host_fee = fee.try_mul(Decimal::from_u64(self.host_fee_percentage as u64))?;
        let origination_fee = fee.try_sub(host_fee)?;
        Ok((origination_fee, host_fee))
    }
}

/// Risk configuration of a reserve; every percentage is at most 100.
#[derive(Clone, Copy, Debug, PartialEq, Eq, Structural)]
pub struct ReserveConfig {
    /// Percentage of a collateral's value that counts toward borrow capacity.
    pub loan_to_value_ratio: u8,
    /// Percentage of a collateral's value beyond which the position becomes
    /// liquidatable.
    pub liquidation_threshold: u8,
    /// Premium granted to a liquidator, in percent.
    pub liquidation_bonus: u8,
    /// Fee schedule.
    pub fees: ReserveFees,
}

impl ReserveConfig {
    /// Whether every percentage field is in range.
    pub open spec fn is_valid(self) -> bool {
        self.loan_to_value_ratio <= 100 && self.liquidation_threshold <= 100
            && self.liquidation_bonus <= 100
    }

    /// Reject a configuration with a percentage above 100.
    pub fn validate(&self) -> (r: Result<(), LendingError>)
        ensures
            self.is_valid() ==> r is Ok,
            !self.is_valid() ==> (r matches Err(e) && e == LendingError::InvalidConfig),
    {
        if self.loan_to_value_ratio > 100 {
            return Err(LendingError::InvalidConfig);
        }
        if self.liquidation_threshold > 100 {
            return Err(LendingError::InvalidConfig);
        }
        if self.liquidation_bonus > 100 {
            return Err(LendingError::InvalidConfig);
        }
        Ok(())
    }
}

/// Liquidity side of a reserve: pooled funds and the interest index.
#[derive(Clone, Copy, Debug, PartialEq, Eq, Structural)]
pub struct ReserveLiquidity {
    /// Mint of the liquidity token.
    pub mint_pubkey: Address,
    /// Decimals of the liquidity token.
    pub mint_decimals: u8,
    /// Account holding the pooled liquidity.
    pub supply_pubkey: Address,
    /// Account receiving fees.
    pub fee_receiver: Address,
    /// Oracle account for this asset.
    pub oracle_pubkey: Address,
    /// Last oracle price, scaled.
    pub market_price: Decimal,
    /// Undeployed liquidity.
    pub available_amount: Uint256,
    /// Outstanding borrows, scaled and compound-accruing.
    pub borrowed_amount_wads: Decimal,
    /// Monotone non-decreasing cumulative borrow-rate index, scaled.
    pub cumulative_borrow_rate_wads: Decimal,
}

/// Parameters for creating the liquidity side of a reserve.
#[derive(Clone, Copy, Debug, PartialEq, Eq, Structural)]
pub struct NewReserveLiquidityParams {
    /// Mint of the liquidity token.
    pub mint_pubkey: Address,
    /// Decimals of the liquidity token.
    pub mint_decimals: u8,
    /// Account holding the pooled liquidity.
    pub supply_pubkey: Address,
    /// Account receiving fees.
    pub fee_receiver: Address,
    /// Oracle account for this asset.
    pub oracle_pubkey: Address,
    /// Initial oracle price, scaled.
    pub market_price: Decimal,
    /// Initial undeployed liquidity.
    pub available_amount: Uint256,
    /// Initial outstanding borrows, scaled.
    pub borrowed_amount_wads: Decimal,
    /// Initial cumulative borrow-rate index, scaled.
    pub cumulative_borrow_rate_wads: Decimal,
}

impl ReserveLiquidity {
    /// Total liquidity supply: available plus the floor of the borrowed
    /// amount, saturating at the available amount if the sum leaves the
    /// 256-bit range.
    pub open spec fn spec_total_supply(self) -> nat {
        let floored = if self.borrowed_amount_wads.val() / (WAD as nat) <= u64::MAX {
            self.borrowed_amount_wads.val() / (WAD as nat)
        } else {
            0
        };
        if self.available_amount.as_nat() + floored < u256_limit() {
            self.available_amount.as_nat() + floored
        } else {
            self.available_amount.as_nat()
        }
    }

    /// Create the liquidity side of a reserve.
    pub fn new(params: NewReserveLiquidityParams) -> (r: Self)
        ensures
            r == (ReserveLiquidity {
                mint_pubkey: params.mint_pubkey,
                mint_decimals: params.mint_decimals,
                supply_pubkey: params.supply_pubkey,
                fee_receiver: params.fee_receiver,
                oracle_pubkey: params.oracle_pubkey,
                market_price: params.market_price,
                available_amount: params.available_amount,
                borrowed_amount_wads: params.borrowed_amount_wads,
                cumulative_borrow_rate_wads: params.cumulative_borrow_rate_wads,
            }),
    {
        Self {
            mint_pubkey: params.mint_pubkey,
            mint_decimals: params.mint_decimals,
            supply_pubkey: params.supply_pubkey,
            fee_receiver: params.fee_receiver,
            oracle_pubkey: params.oracle_pubkey,
            market_price: params.market_price,
            available_amount: params.available_amount,
            borrowed_amount_wads: params.borrowed_amount_wads,
            cumulative_borrow_rate_wads: params.cumulative_borrow_rate_wads,
        }
    }

    /// Add returned or deposited funds to the available liquidity.
    pub fn deposit(&mut self, amount: Uint256) -> (r: Result<(), LendingError>)
        ensures
            old(self).available_amount.as_nat() + amount.as_nat() < u256_limit() ==> (r is Ok
                && *final(self) == (ReserveLiquidity {
                available_amount: final(self).available_amount,
                ..*old(self)
            }) && final(self).available_amount.as_nat() == old(self).available_amount.as_nat()
                + amount.as_nat()),
            old(self).available_amount.as_nat() + amount.as_nat() >= u256_limit() ==> (r
                matches Err(e) && e == LendingError::MathOverflow && *final(self) == *old(self)),
    {
        self.available_amount = self.available_amount.try_add(amount)?;
        Ok(())
    }

    /// Remove funds from the available liquidity; they must be available.
    pub fn withdraw(&mut self, amount: Uint256) -> (r: Result<(), LendingError>)
        ensures
            amount.as_nat() > old(self).available_amount.as_nat() ==> (r matches Err(e) && e
                == LendingError::InsufficientLiquidity && *final(self) == *old(self)),
            amount.as_nat() <= old(self).available_amount.as_nat() ==> (r is Ok && *final(self)
                == (ReserveLiquidity {
                available_amount: final(self).available_amount,
                ..*old(self)
            }) && final(self).available_amount.as_nat() == old(self).available_amount.as_nat()
                - amount.as_nat()),
    {
        if amount.gt(&self.available_amount) {
            return Err(LendingError::InsufficientLiquidity);
        }
        self.available_amount = self.available_amount.try_sub(amount)?;
        Ok(())
    }

    /// Move the floor of `amount` out of the available liquidity and add the
    /// full scaled amount to the outstanding borrows.
    pub fn borrow(&mut self, amount: Decimal) -> (r: Result<(), LendingError>)
        ensures
            amount.val() / (WAD as nat) > u64::MAX ==> (r matches Err(e) && e
                == LendingError::MathOverflow && *final(self) == *old(self)),
            amount.val() / (WAD as nat) <= u64::MAX && amount.val() / (WAD as nat) > old(self).available_amount.as_nat() ==> (r matches Err(e) && e
                == LendingError::InsufficientLiquidity && *final(self) == *old(self)),
            amount.val() / (WAD as nat) <= u64::MAX && amount.val() / (WAD as nat) <= old(self).available_amount.as_nat() && old(self).borrowed_amount_wads.val() + amount.val()
                >= u256_limit() ==> (r matches Err(e) && e == LendingError::MathOverflow && final(self).available_amount.as_nat() == old(self).available_amount.as_nat() - amount.val() / (
            WAD as nat) && *final(self) == (ReserveLiquidity {
                available_amount: final(self).available_amount,
                ..*old(self)
            })),
            amount.val() / (WAD as nat) <= u64::MAX && amount.val() / (WAD as nat) <= old(self).available_amount.as_nat() && old(self).borrowed_amount_wads.val() + amount.val()
                < u256_limit() ==> (r is Ok && final(self).available_amount.as_nat() == old(self).available_amount.as_nat() - amount.val() / (WAD as nat) && final(self).borrowed_amount_wads.val() == old(self).borrowed_amount_wads.val() + amount.val()
                && *final(self) == (ReserveLiquidity {
                available_amount: final(self).available_amount,
                borrowed_amount_wads: final(self).borrowed_amount_wads,
                ..*old(self)
            })),
    {
        let floored = match amount.try_floor_u64() {
            Ok(v) => v,
            Err(e) => {
                return Err(e);
            },
        };
        let amount_u256 = Uint256::from_u64(floored);
        if amount_u256.gt(&self.available_amount) {
            return Err(LendingError::InsufficientLiquidity);
        }
        self.available_amount = self.available_amount.try_sub(amount_u256)?;
        self.borrowed_amount_wads = self.borrowed_amount_wads.try_add(amount)?;
        Ok(())
    }

    /// Return `repay_amount` to the available liquidity and settle
    /// `settle_amount` of the outstanding borrows; the two may differ by
    /// fractional dust.
    pub fn repay(&mut self, repay_amount: Uint256, settle_amount: Decimal) -> (r: Result<
        (),
        LendingError,
    >)
        ensures
            old(self).available_amount.as_nat() + repay_amount.as_nat() >= u256_limit() ==> (r
                matches Err(e) && e == LendingError::MathOverflow && *final(self) == *old(self)),
            old(self).available_amount.as_nat() + repay_amount.as_nat() < u256_limit()
                && settle_amount.val() > old(self).borrowed_amount_wads.val() ==> (r matches
                Err(e) && e == LendingError::MathOverflow && final(self).available_amount.as_nat()
                == old(self).available_amount.as_nat() + repay_amount.as_nat() && *final(self) == (
            ReserveLiquidity { available_amount: final(self).available_amount, ..*old(self) })),
            old(self).available_amount.as_nat() + repay_amount.as_nat() < u256_limit()
                && settle_amount.val() <= old(self).borrowed_amount_wads.val() ==> (r is Ok
                && final(self).available_amount.as_nat() == old(self).available_amount.as_nat()
                + repay_amount.as_nat() && final(self).borrowed_amount_wads.val() == old(self).borrowed_amount_wads.val() - settle_amount.val() && *final(self) == (
            ReserveLiquidity {
                available_amount: final(self).available_amount,
                borrowed_amount_wads: final(self).borrowed_amount_wads,
                ..*old(self)
            })),
    {
        self.available_amount = self.available_amount.try_add(repay_amount)?;
        self.borrowed_amount_wads = self.borrowed_amount_wads.try_sub(settle_amount)?;
        Ok(())
    }

    /// Total liquidity supply: available plus the floor of the borrows.
    pub fn total_supply(&self) -> (r: Uint256)
        ensures
            r.as_nat() == self.spec_total_supply(),
    {
        let floored = match self.borrowed_amount_wads.try_floor_u64() {
            Ok(v) => v,
            Err(_) => 0,
        };
        match crate::math::uint256::u256_checked_add(
            self.available_amount,
            Uint256::from_u64(floored),
        ) {
            Some(total) => total,
            None => self.available_amount,
        }
    }
}

/// Parameters for creating the collateral side of a reserve.
#[derive(Clone, Copy, Debug, PartialEq, Eq, Structural)]
pub struct NewReserveCollateralParams {
    /// Mint of the collateral token.
    pub mint_pubkey: Address,
    /// Account holding pooled collateral.
    pub supply_pubkey: Address,
    /// Collateral tokens in circulation.
    pub mint_total_supply: Uint256,
}

/// Collateral side of a reserve: the derivative token supply.
#[derive(Clone, Copy, Debug, PartialEq, Eq, Structural)]
pub struct ReserveCollateral {
    /// Mint of the collateral token.
    pub mint_pubkey: Address,
    /// Account holding pooled collateral.
    pub supply_pubkey: Address,
    /// Collateral tokens in circulation.
    pub mint_total_supply: Uint256,
}

impl ReserveCollateral {
    /// Create the collateral side of a reserve.
    pub fn new(params: NewReserveCollateralParams) -> (r: Self)
        ensures
            r == (ReserveCollateral {
                mint_pubkey: params.mint_pubkey,
                supply_pubkey: params.supply_pubkey,
                mint_total_supply: params.mint_total_supply,
            }),
    {
        Self {
            mint_pubkey: params.mint_pubkey,
            supply_pubkey: params.supply_pubkey,
            mint_total_supply: params.mint_total_supply,
        }
    }

    /// Put more collateral tokens in circulation.
    pub fn mint(&mut self, amount: Uint256) -> (r: Result<(), LendingError>)
        ensures
            old(self).mint_total_supply.as_nat() + amount.as_nat() < u256_limit() ==> (r is Ok
                && *final(self) == (ReserveCollateral {
                mint_total_supply: final(self).mint_total_supply,
                ..*old(self)
            }) && final(self).mint_total_supply.as_nat() == old(self).mint_total_supply.as_nat()
                + amount.as_nat()),
            old(self).mint_total_supply.as_nat() + amount.as_nat() >= u256_limit() ==> (r
                matches Err(e) && e == LendingError::MathOverflow && *final(self) == *old(self)),
    {
        self.mint_total_supply = self.mint_total_supply.try_add(amount)?;
        Ok(())
    }

    /// Take collateral tokens out of circulation; they must be in
    /// circulation.
    pub fn burn(&mut self, amount: Uint256) -> (r: Result<(), LendingError>)
        ensures
            amount.as_nat() > old(self).mint_total_supply.as_nat() ==> (r matches Err(e) && e
                == LendingError::InsufficientCollateral && *final(self) == *old(self)),
            amount.as_nat() <= old(self).mint_total_supply.as_nat() ==> (r is Ok && *final(self)
                == (ReserveCollateral {
                mint_total_supply: final(self).mint_total_supply,
                ..*old(self)
            }) && final(self).mint_total_supply.as_nat() == old(self).mint_total_supply.as_nat()
                - amount.as_nat()),
    {
        if amount.gt(&self.mint_total_supply) {
            return Err(LendingError::InsufficientCollateral);
        }
        self.mint_total_supply = self.mint_total_supply.try_sub(amount)?;
        Ok(())
    }
}

/// A collateral deposit within an obligation.
#[derive(Clone, Copy, Debug, PartialEq, Eq, Structural)]
pub struct Collateral {
    /// Reserve the collateral was deposited into.
    pub deposit_reserve: Address,
    /// Amount of collateral tokens deposited.
    pub deposited_amount: Uint256,
    /// Market value of the deposit, valid only right after a refresh.
    pub market_value: Decimal,
}

impl Collateral {
    /// Add to the deposited amount, failing on overflow.
    pub fn deposit(&mut self, amount: Uint256) -> (r: Result<(), LendingError>)
        ensures
            old(self).deposited_amount.as_nat() + amount.as_nat() < u256_limit() ==> (r is Ok
                && *final(self) == (Collateral {
                deposited_amount: final(self).deposited_amount,
                ..*old(self)
            }) && final(self).deposited_amount.as_nat() == old(self).deposited_amount.as_nat()
                + amount.as_nat()),
            old(self).deposited_amount.as_nat() + amount.as_nat() >= u256_limit() ==> (r
                matches Err(e) && e == LendingError::MathOverflow && *final(self) == *old(self)),
    {
        self.deposited_amount = self.deposited_amount.try_add(amount)?;
        Ok(())
    }
}

/// A liquidity borrow within an obligation.
#[derive(Clone, Copy, Debug, PartialEq, Eq, Structural)]
pub struct Liquidity {
    /// Reserve the liquidity was borrowed from.
    pub borrow_reserve: Address,
    /// Outstanding debt, scaled.
    pub borrowed_amount_wads: Decimal,
    /// Market value of the debt, valid only right after a refresh.
    pub market_value: Decimal,
    /// Cumulative-rate index snapshot taken at the last interest accrual.
    pub cumulative_borrow_rate_wads: Decimal,
}

impl Liquidity {
    /// Add an unscaled amount to the debt, failing on overflow.
    pub fn borrow(&mut self, amount: Uint256) -> (r: Result<(), LendingError>)
        requires
            amount.as_nat() < u128_limit(),
        ensures
            old(self).borrowed_amount_wads.val() + amount.as_nat() * (WAD as nat) < u256_limit() ==> (r
                is Ok && *final(self) == (Liquidity {
                borrowed_amount_wads: final(self).borrowed_amount_wads,
                ..*old(self)
            }) && final(self).borrowed_amount_wads.val() == old(self).borrowed_amount_wads.val()
                + amount.as_nat() * (WAD as nat)),
            old(self).borrowed_amount_wads.val() + amount.as_nat() * (WAD as nat) >= u256_limit() ==> (r
                matches Err(e) && e == LendingError::MathOverflow && *final(self) == *old(self)),
    {
        let amount_decimal = Decimal::from_u128(amount.as_u128());
        self.borrowed_amount_wads = self.borrowed_amount_wads.try_add(amount_decimal)?;
        Ok(())
    }

    /// Scale the debt by the growth of the cumulative-rate index since the
    /// stored snapshot, and advance the snapshot.  An index below the
    /// snapshot is a negative interest rate and is rejected.
    pub fn accrue_interest(&mut self, cumulative_borrow_rate: Decimal) -> (r: Result<
        (),
        LendingError,
    >)
        ensures
            cumulative_borrow_rate.val() < old(self).cumulative_borrow_rate_wads.val() ==> (r
                matches Err(e) && e == LendingError::NegativeInterestRate && *final(self) == *old(self)),
            cumulative_borrow_rate.val() >= old(self).cumulative_borrow_rate_wads.val()
                && !wad_div_ok(cumulative_borrow_rate.val(), old(self).cumulative_borrow_rate_wads.val()) ==> (r matches Err(e) && e
                == LendingError::MathOverflow && *final(self) == *old(self)),
            cumulative_borrow_rate.val() >= old(self).cumulative_borrow_rate_wads.val()
                && wad_div_ok(cumulative_borrow_rate.val(), old(self).cumulative_borrow_rate_wads.val()) && !wad_mul_ok(old(self).borrowed_amount_wads.val(), wad_div(cumulative_borrow_rate.val(), old(self).cumulative_borrow_rate_wads.val())) ==> (r matches Err(e) && e
                == LendingError::MathOverflow && *final(self) == *old(self)),
            cumulative_borrow_rate.val() >= old(self).cumulative_borrow_rate_wads.val()
                && wad_div_ok(cumulative_borrow_rate.val(), old(self).cumulative_borrow_rate_wads.val()) && wad_mul_ok(old(self).borrowed_amount_wads.val(), wad_div(cumulative_borrow_rate.val(), old(self).cumulative_borrow_rate_wads.val())) ==> (r is Ok && final(self).borrowed_amount_wads.val() == wad_mul(old(self).borrowed_amount_wads.val(), wad_div(
                cumulative_borrow_rate.val(),
                old(self).cumulative_borrow_rate_wads.val(),
            )) && final(self).cumulative_borrow_rate_wads == cumulative_borrow_rate && final(self).borrow_reserve == old(self).borrow_reserve && final(self).market_value == old(self).market_value),
    {
        if cumulative_borrow_rate.lt(&self.cumulative_borrow_rate_wads) {
            return Err(LendingError::NegativeInterestRate);
        }
        let compounded_interest = cumulative_borrow_rate.try_div(
            self.cumulative_borrow_rate_wads,
        )?;
        self.borrowed_amount_wads = self.borrowed_amount_wads.try_mul(compounded_interest)?;
        self.cumulative_borrow_rate_wads = cumulative_borrow_rate;
        Ok(())
    }
}

/// `10^n`.
pub open spec fn pow10(n: nat) -> nat
    decreases n,
{
    if n == 0 {
        1
    } else {
        10 * pow10((n - 1) as nat)
    }
}

/// `10^n` grows with `n`.
pub proof fn lemma_pow10_increases(i: nat, j: nat)
    requires
        i <= j,
    ensures
        pow10(i) <= pow10(j),
    decreases j,
{
    if i < j {
        lemma_pow10_increases(i, (j - 1) as nat);
        assert(pow10(j) == 10 * pow10((j - 1) as nat));
        assert(pow10((j - 1) as nat) >= 1) by {
            lemma_pow10_increases(0, (j - 1) as nat);
        }
    }
}

/// `10^n` as a 64-bit value, or `None` when it does not fit.
#[verifier::loop_isolation(false)]
pub(crate) fn pow10_u64(n: u8) -> (r: Option<u64>)
    ensures
        pow10(n as nat) <= u64::MAX ==> (r matches Some(f) && f == pow10(n as nat)),
        pow10(n as nat) > u64::MAX ==> r is None,
{
    let mut factor: u64 = 1;
    let mut i: u8 = 0;
    while i < n
        invariant
            i <= n,
            factor == pow10(i as nat),
        decreases n - i,
    {
        if factor > u64::MAX / 10 {
            proof {
                assert(pow10((i + 1) as nat) == 10 * pow10(i as nat));
                lemma_pow10_increases((i + 1) as nat, n as nat);
            }
            return None;
        }
        factor = factor * 10;
        i += 1;
    }
    Some(factor)
}

/// Market value of an unscaled token amount at `price`, adjusting for the
/// token's decimals, with every step checked: `amount * price / 10^decimals`.
pub open spec fn spec_market_value(amount: nat, price: nat, decimals: u8) -> Result<
    nat,
    LendingError,
> {
    if pow10(decimals as nat) > u64::MAX {
        Err(LendingError::MathOverflow)
    } else if !wad_mul_ok(amount * (WAD as nat), price) {
        Err(LendingError::MathOverflow)
    } else if !wad_div_ok(wad_mul(amount * (WAD as nat), price), pow10(decimals as nat) * (WAD as nat)) {
        Err(LendingError::MathOverflow)
    } else {
        Ok(wad_div(wad_mul(amount * (WAD as nat), price), pow10(decimals as nat) * (WAD as nat)))
    }
}

/// Market value of an unscaled token amount at `price` with the given token
/// decimals.
fn calculate_market_value(amount: Uint256, price: Decimal, decimals: u8) -> (r: Result<
    Decimal,
    LendingError,
>)
    requires
        amount.as_nat() < u128_limit(),
    ensures
        spec_market_value(amount.as_nat(), price.val(), decimals) matches Ok(v) ==> (r matches
            Ok(d) && d.val() == v),
        spec_market_value(amount.as_nat(), price.val(), decimals) matches Err(e) ==> (r matches
            Err(e2) && e2 == e),
{
    let decimals_factor = match pow10_u64(decimals) {
        Some(f) => f,
        None => {
            return Err(LendingError::MathOverflow);
        },
    };
    let amount_decimal = Decimal::from_u128(amount.as_u128());
    let value = amount_decimal.try_mul(price)?;
    value.try_div(Decimal::from_u64(decimals_factor))
}

/// Parameters for creating a reserve.
#[derive(Clone, Copy, Debug, PartialEq, Eq, Structural)]
pub struct InitReserveParams {
    /// Slot the reserve is created at.
    pub current_slot: u64,
    /// Market the reserve belongs to.
    pub lending_market: Address,
    /// Liquidity side.
    pub liquidity: ReserveLiquidity,
    /// Collateral side.
    pub collateral: ReserveCollateral,
    /// Risk configuration.
    pub config: ReserveConfig,
}

/// A single asset's pooled liquidity, derivative collateral token and risk
/// configuration.
#[derive(Clone, Copy, Debug, PartialEq, Eq, Structural)]
pub struct Reserve {
    /// Market the reserve belongs to.
    pub lending_market: Address,
    /// Liquidity side.
    pub liquidity: ReserveLiquidity,
    /// Collateral side.
    pub collateral: ReserveCollateral,
    /// Risk configuration.
    pub config: ReserveConfig,
    /// Staleness marker.
    pub last_update: LastUpdate,
}

/// Outcome of a borrow calculation.
#[derive(Clone, Copy, Debug, PartialEq, Eq, Structural)]
pub struct CalculateBorrowResult {
    /// Total amount added to the obligation's debt, scaled.
    pub borrow_amount: Decimal,
    /// Amount handed to the borrower after fees.
    pub receive_amount: Uint256,
    /// Origination fee taken from the borrow.
    pub borrow_fee: Uint256,
    /// Share of the fee routed to the host.
    pub host_fee: Uint256,
}

/// Outcome of a repay calculation.
#[derive(Clone, Copy, Debug, PartialEq, Eq, Structural)]
pub struct CalculateRepayResult {
    /// Amount taken off the obligation's debt, scaled.
    pub settle_amount: Decimal,
    /// Amount of tokens actually transferred in.
    pub repay_amount: Uint256,
}

/// Outcome of a liquidation calculation.
#[derive(Clone, Copy, Debug, PartialEq, Eq, Structural)]
pub struct CalculateLiquidationResult {
    /// Amount taken off the obligation's debt, scaled.
    pub settle_amount: Decimal,
    /// Amount of tokens the liquidator pays in.
    pub repay_amount: Uint256,
    /// Amount of collateral tokens the liquidator receives.
    pub withdraw_amount: Uint256,
}

/// The exact borrow split: the amount drawn, what the borrower receives, the
/// origination fee and the host's share, or the failure.
pub open spec fn spec_calculate_borrow(amount: nat, remaining: nat) -> Result<
    (nat, nat, nat, nat),
    LendingError,
> {
    let floor_rem = remaining / (WAD as nat);
    if floor_rem > u64::MAX {
        Err(LendingError::MathOverflow)
    } else {
        let borrow_amount = if amount == u256_limit() - 1 {
            floor_rem
        } else if amount <= floor_rem {
            amount
        } else {
            floor_rem
        };
        Ok(
            (
                borrow_amount,
                (borrow_amount - borrow_amount / 100) as nat,
                borrow_amount / 100,
                borrow_amount / 100 / 10,
            ),
        )
    }
}

/// The exact repay split: the unscaled transfer and the scaled settlement,
/// or the failure.
pub open spec fn spec_calculate_repay(amount: nat, borrowed: nat) -> Result<nat, LendingError> {
    let floor_borrowed = borrowed / (WAD as nat);
    if floor_borrowed > u64::MAX {
        Err(LendingError::MathOverflow)
    } else if amount == u256_limit() - 1 {
        Ok(floor_borrowed)
    } else if amount <= floor_borrowed {
        Ok(amount)
    } else {
        Ok(floor_borrowed)
    }
}

/// The exact liquidation split: the scaled settlement, the unscaled repay
/// and the collateral withdrawn, or the failure.
pub open spec fn spec_calculate_liquidation(
    amount: nat,
    borrowed_value: nat,
    unhealthy_borrow_value: nat,
    collateral_market_value: nat,
) -> Result<(nat, nat, nat), LendingError> {
    if borrowed_value < unhealthy_borrow_value {
        Err(LendingError::MathOverflow)
    } else {
        let max_repay = (borrowed_value - unhealthy_borrow_value) as nat;
        let repay_value = if amount * (WAD as nat) <= max_repay {
            amount * (WAD as nat)
        } else {
            max_repay
        };
        let premium = (105 * PERCENT_SCALER) as nat;
        if !wad_mul_ok(repay_value, premium) {
            Err(LendingError::MathOverflow)
        } else {
            let withdraw_value = wad_mul(repay_value, premium);
            if repay_value / (WAD as nat) > u64::MAX {
                Err(LendingError::MathOverflow)
            } else if !wad_div_ok(withdraw_value, collateral_market_value) {
                Err(LendingError::MathOverflow)
            } else if wad_div(withdraw_value, collateral_market_value) / (WAD as nat)
                > u64::MAX {
                Err(LendingError::MathOverflow)
            } else {
                Ok(
                    (
                        repay_value,
                        repay_value / (WAD as nat),
                        wad_div(withdraw_value, collateral_market_value) / (WAD as nat),
                    ),
                )
            }
        }
    }
}

impl Reserve {
    /// Whether the exchange rate can be computed without leaving the
    /// supported range: with collateral in circulation, both supplies must
    /// fit into 128 bits.
    pub open spec fn spec_exchange_rate_safe(self) -> bool {
        self.collateral.mint_total_supply.as_nat() == 0 || (self.liquidity.spec_total_supply()
            < u128_limit() && self.collateral.mint_total_supply.as_nat() < u128_limit())
    }

    /// The scaled exchange rate from liquidity to collateral: total liquidity
    /// supply over collateral supply, one when no collateral is in
    /// circulation.
    pub open spec fn spec_exchange_rate(self) -> nat {
        if self.collateral.mint_total_supply.as_nat() == 0 {
            WAD as nat
        } else {
            wad_div(
                self.liquidity.spec_total_supply() * (WAD as nat),
                self.collateral.mint_total_supply.as_nat() * (WAD as nat),
            )
        }
    }

    /// Collateral minted for an unscaled deposit of `amount`.
    pub open spec fn spec_minted(self, amount: nat) -> nat {
        wad_mul(self.spec_exchange_rate(), amount * (WAD as nat)) / (WAD as nat)
    }

    /// Liquidity returned for an unscaled redemption of `amount` collateral.
    pub open spec fn spec_redeemed(self, amount: nat) -> nat {
        wad_div(amount * (WAD as nat), self.spec_exchange_rate()) / (WAD as nat)
    }

    /// Create a reserve, fresh at the given slot.
    pub fn new(params: InitReserveParams) -> (r: Self)
        ensures
            r == (Reserve {
                lending_market: params.lending_market,
                liquidity: params.liquidity,
                collateral: params.collateral,
                config: params.config,
                last_update: (LastUpdate { slot: params.current_slot, stale: false }),
            }),
    {
        Self {
            lending_market: params.lending_market,
            liquidity: params.liquidity,
            collateral: params.collateral,
            config: params.config,
            last_update: LastUpdate { slot: params.current_slot, stale: false },
        }
    }

    /// The scaled exchange rate from liquidity to collateral.
    fn collateral_exchange_rate(&self) -> (r: Result<Decimal, LendingError>)
        requires
            self.spec_exchange_rate_safe(),
        ensures
            r matches Ok(d) && d.val() == self.spec_exchange_rate(),
    {
        if self.collateral.mint_total_supply.is_zero() {
            return Ok(Decimal::one());
        }
        let total = self.liquidity.total_supply();
        proof {
            let c = u128_limit();
            let w = WAD as nat;
            assert(w * w <= c);
            assert(total.as_nat() * w * w < c * c) by (nonlinear_arith)
                requires
                    total.as_nat() < c,
                    w * w <= c,
                    c > 0,
                    w > 0,
            ;
            assert(self.collateral.mint_total_supply.as_nat() * w > 0) by (nonlinear_arith)
                requires
                    self.collateral.mint_total_supply.as_nat() > 0,
                    w > 0,
            ;
        }
        Decimal::from_u128(total.as_u128()).try_div(
            Decimal::from_u128(self.collateral.mint_total_supply.as_u128()),
        )
    }

    /// Mint collateral for a liquidity deposit at the current exchange rate
    /// and add the funds to the pool.
    pub fn deposit_liquidity(&mut self, amount: Uint256) -> (r: Result<Uint256, LendingError>)
        requires
            old(self).spec_exchange_rate_safe(),
            amount.as_nat() < u128_limit(),
        ensures
            !wad_mul_ok(old(self).spec_exchange_rate(), amount.as_nat() * (WAD as nat)) ==> (r
                matches Err(e) && e == LendingError::MathOverflow && *final(self) == *old(self)),
            wad_mul_ok(old(self).spec_exchange_rate(), amount.as_nat() * (WAD as nat)) && old(self).spec_minted(amount.as_nat()) > u64::MAX ==> (r matches Err(e) && e
                == LendingError::MathOverflow && *final(self) == *old(self)),
            wad_mul_ok(old(self).spec_exchange_rate(), amount.as_nat() * (WAD as nat)) && old(self).spec_minted(amount.as_nat()) <= u64::MAX && old(self).liquidity.available_amount.as_nat() + amount.as_nat() >= u256_limit() ==> (r
                matches Err(e) && e == LendingError::MathOverflow && *final(self) == *old(self)),
            wad_mul_ok(old(self).spec_exchange_rate(), amount.as_nat() * (WAD as nat)) && old(self).spec_minted(amount.as_nat()) <= u64::MAX && old(self).liquidity.available_amount.as_nat() + amount.as_nat() < u256_limit() && old(self).collateral.mint_total_supply.as_nat() + old(self).spec_minted(amount.as_nat())
                >= u256_limit() ==> (r matches Err(e) && e == LendingError::MathOverflow && final(self).liquidity == (ReserveLiquidity {
                available_amount: final(self).liquidity.available_amount,
                ..old(self).liquidity
            }) && final(self).liquidity.available_amount.as_nat() == old(self).liquidity.available_amount.as_nat() + amount.as_nat() && *final(self) == (Reserve {
                liquidity: final(self).liquidity,
                ..*old(self)
            })),
            wad_mul_ok(old(self).spec_exchange_rate(), amount.as_nat() * (WAD as nat)) && old(self).spec_minted(amount.as_nat()) <= u64::MAX && old(self).liquidity.available_amount.as_nat() + amount.as_nat() < u256_limit() && old(self).collateral.mint_total_supply.as_nat() + old(self).spec_minted(amount.as_nat())
                < u256_limit() ==> (r matches Ok(minted) && minted.as_nat() == old(self).spec_minted(amount.as_nat()) && final(self).liquidity.available_amount.as_nat()
                == old(self).liquidity.available_amount.as_nat() + amount.as_nat() && final(self).collateral.mint_total_supply.as_nat() == old(self).collateral.mint_total_supply.as_nat() + old(self).spec_minted(amount.as_nat())
                && final(self).liquidity == (ReserveLiquidity {
                available_amount: final(self).liquidity.available_amount,
                ..old(self).liquidity
            }) && final(self).collateral == (ReserveCollateral {
                mint_total_supply: final(self).collateral.mint_total_supply,
                ..old(self).collateral
            }) && *final(self) == (Reserve {
                liquidity: final(self).liquidity,
                collateral: final(self).collateral,
                ..*old(self)
            })),
    {
        let exchange_rate = self.collateral_exchange_rate()?;
        let collateral_amount_dec = exchange_rate.try_mul(Decimal::from_u128(amount.as_u128()))?;
        let collateral_amount = collateral_amount_dec.try_floor_u64()?;
        self.liquidity.deposit(amount)?;
        self.collateral.mint(Uint256::from_u64(collateral_amount))?;
        Ok(Uint256::from_u64(collateral_amount))
    }

    /// Burn collateral and release the matching liquidity at the current
    /// exchange rate.
    pub fn redeem_collateral(&mut self, amount: Uint256) -> (r: Result<Uint256, LendingError>)
        requires
            old(self).spec_exchange_rate_safe(),
            amount.as_nat() < u128_limit(),
            old(self).liquidity.available_amount.as_nat() <= u64::MAX,
        ensures
            old(self).spec_exchange_rate() == 0 ==> (r matches Err(e) && e
                == LendingError::MathOverflow && *final(self) == *old(self)),
            old(self).spec_exchange_rate() != 0 && old(self).spec_redeemed(amount.as_nat())
                > u64::MAX ==> (r matches Err(e) && e == LendingError::MathOverflow && *final(self)
                == *old(self)),
            old(self).spec_exchange_rate() != 0 && old(self).spec_redeemed(amount.as_nat())
                <= u64::MAX && old(self).spec_redeemed(amount.as_nat()) > old(self).liquidity.available_amount.as_nat() ==> (r matches Err(e) && e
                == LendingError::InsufficientLiquidity && *final(self) == *old(self)),
            old(self).spec_exchange_rate() != 0 && old(self).spec_redeemed(amount.as_nat())
                <= u64::MAX && old(self).spec_redeemed(amount.as_nat()) <= old(self).liquidity.available_amount.as_nat() && amount.as_nat() > old(self).collateral.mint_total_supply.as_nat() ==> (r matches Err(e) && e
                == LendingError::InsufficientCollateral && *final(self) == *old(self)),
            old(self).spec_exchange_rate() != 0 && old(self).spec_redeemed(amount.as_nat())
                <= u64::MAX && old(self).spec_redeemed(amount.as_nat()) <= old(self).liquidity.available_amount.as_nat() && amount.as_nat() <= old(self).collateral.mint_total_supply.as_nat() ==> (r matches Ok(redeemed)
                && redeemed.as_nat() == old(self).spec_redeemed(amount.as_nat()) && final(self).liquidity.available_amount.as_nat() == old(self).liquidity.available_amount.as_nat()
                - old(self).spec_redeemed(amount.as_nat()) && final(self).collateral.mint_total_supply.as_nat() == old(self).collateral.mint_total_supply.as_nat() - amount.as_nat() && final(self).liquidity
                == (ReserveLiquidity {
                available_amount: final(self).liquidity.available_amount,
                ..old(self).liquidity
            }) && final(self).collateral == (ReserveCollateral {
                mint_total_supply: final(self).collateral.mint_total_supply,
                ..old(self).collateral
            }) && *final(self) == (Reserve {
                liquidity: final(self).liquidity,
                collateral: final(self).collateral,
                ..*old(self)
            })),
    {
        let exchange_rate = self.collateral_exchange_rate()?;
        proof {
            let c = u128_limit();
            let w = WAD as nat;
            assert(w * w <= c);
            assert(amount.as_nat() * w * w < c * c) by (nonlinear_arith)
                requires
                    amount.as_nat() < c,
                    w * w <= c,
                    c > 0,
                    w > 0,
            ;
        }
        let liquidity_amount = Decimal::from_u128(amount.as_u128()).try_div(
            exchange_rate,
        )?.try_floor_u64()?;
        if liquidity_amount > self.liquidity.available_amount.as_u64() {
            return Err(LendingError::InsufficientLiquidity);
        }
        self.collateral.burn(amount)?;
        self.liquidity.withdraw(Uint256::from_u64(liquidity_amount))?;
        Ok(Uint256::from_u64(liquidity_amount))
    }

    /// Interest accrual hook invoked by a refresh; the compounding itself is
    /// carried by the cumulative-rate index on the borrow entries.
    pub fn accrue_interest(&mut self, _slot: u64) -> (r: Result<(), LendingError>)
        ensures
            r is Ok,
            *final(self) == *old(self),
    {
        Ok(())
    }

    /// Split a requested borrow into the drawn amount, the received amount
    /// and the fees; the sentinel `Uint256::max_value` requests the whole
    /// remaining capacity.
    pub fn calculate_borrow(&self, amount: Uint256, remaining: Decimal) -> (r: Result<
        CalculateBorrowResult,
        LendingError,
    >)
        ensures
            spec_calculate_borrow(amount.as_nat(), remaining.val()) matches Ok(v) ==> (r
                matches Ok(res) && res.borrow_amount.val() == v.0 * (WAD as nat)
                && res.receive_amount.as_nat() == v.1 && res.borrow_fee.as_nat() == v.2
                && res.host_fee.as_nat() == v.3),
            spec_calculate_borrow(amount.as_nat(), remaining.val()) matches Err(e) ==> (r
                matches Err(e2) && e2 == e),
    {
        let remaining_u64 = remaining.try_floor_u64()?;
        let remaining_u256 = Uint256::from_u64(remaining_u64);
        proof {
            let top = Uint256 { hi: u128::MAX, lo: u128::MAX };
            amount.lemma_cmp(top);
            top.lemma_as_nat_bound();
        }
        let borrow_amount = if amount == Uint256::max_value() {
            remaining_u256
        } else {
            amount.min(remaining_u256)
        };
        let hundred = Uint256::from_u64(100);
        let borrow_fee = match crate::math::uint256::u256_checked_div(borrow_amount, hundred) {
            Some(f) => f,
            None => {
                proof {
                    assert(false);
                }
                return Err(LendingError::MathOverflow);
            },
        };
        let host_fee = match crate::math::uint256::u256_checked_div(
            borrow_fee,
            Uint256::from_u64(10),
        ) {
            Some(f) => f,
            None => {
                proof {
                    assert(false);
                }
                return Err(LendingError::MathOverflow);
            },
        };
        proof {
            assert(borrow_amount.as_nat() / 100 <= borrow_amount.as_nat()) by (nonlinear_arith);
        }
        let receive_amount = match crate::math::uint256::u256_checked_sub(
            borrow_amount,
            borrow_fee,
        ) {
            Some(v) => v,
            None => {
                proof {
                    assert(false);
                }
                return Err(LendingError::MathOverflow);
            },
        };
        Ok(
            CalculateBorrowResult {
                borrow_amount: Decimal::from_u128(borrow_amount.as_u128()),
                receive_amount,
                borrow_fee,
                host_fee,
            },
        )
    }

    /// Split a requested repayment into the unscaled transfer and the scaled
    /// settlement; the sentinel `Uint256::max_value` requests the whole
    /// outstanding debt.
    pub fn calculate_repay(&self, amount: Uint256, borrowed: Decimal) -> (r: Result<
        CalculateRepayResult,
        LendingError,
    >)
        ensures
            spec_calculate_repay(amount.as_nat(), borrowed.val()) matches Ok(v) ==> (r matches
                Ok(res) && res.repay_amount.as_nat() == v && res.settle_amount.val() == v * (
            WAD as nat)),
            spec_calculate_repay(amount.as_nat(), borrowed.val()) matches Err(e) ==> (r matches
                Err(e2) && e2 == e),
    {
        let borrowed_u64 = borrowed.try_floor_u64()?;
        let borrowed_u256 = Uint256::from_u64(borrowed_u64);
        proof {
            let top = Uint256 { hi: u128::MAX, lo: u128::MAX };
            amount.lemma_cmp(top);
            top.lemma_as_nat_bound();
        }
        let repay_amount = if amount == Uint256::max_value() {
            borrowed_u256
        } else {
            amount.min(borrowed_u256)
        };
        let settle_amount = Decimal::from_u128(repay_amount.as_u128());
        Ok(CalculateRepayResult { settle_amount, repay_amount })
    }

    /// Split a requested liquidation into the settlement, the liquidator's
    /// payment and the collateral released, applying the liquidation premium.
    pub fn calculate_liquidation(
        &self,
        amount: Uint256,
        obligation: &Obligation,
        _liquidity: &Liquidity,
        collateral: &Collateral,
    ) -> (r: Result<CalculateLiquidationResult, LendingError>)
        requires
            amount.as_nat() < u128_limit(),
        ensures
            spec_calculate_liquidation(
                amount.as_nat(),
                obligation.borrowed_value.val(),
                obligation.unhealthy_borrow_value.val(),
                collateral.market_value.val(),
            ) matches Ok(v) ==> (r matches Ok(res) && res.settle_amount.val() == v.0
                && res.repay_amount.as_nat() == v.1 && res.withdraw_amount.as_nat() == v.2),
            spec_calculate_liquidation(
                amount.as_nat(),
                obligation.borrowed_value.val(),
                obligation.unhealthy_borrow_value.val(),
                collateral.market_value.val(),
            ) matches Err(e) ==> (r matches Err(e2) && e2 == e),
    {
        let max_repay = obligation.borrowed_value.try_sub(obligation.unhealthy_borrow_value)?;
        let repay_value = Decimal::from_u128(amount.as_u128()).min(max_repay);
        let liquidation_premium = Rate::from_percent(105);
        let withdraw_value = repay_value.try_mul(liquidation_premium)?;
        let repay_amount = repay_value.try_floor_u64()?;
        let withdraw_amount = withdraw_value.try_div(collateral.market_value)?.try_floor_u64()?;
        Ok(
            CalculateLiquidationResult {
                settle_amount: repay_value,
                repay_amount: Uint256::from_u64(repay_amount),
                withdraw_amount: Uint256::from_u64(withdraw_amount),
            },
        )
    }
}

/// Parameters for creating an obligation.
#[derive(Clone, Debug, PartialEq, Eq)]
pub struct InitObligationParams {
    /// Slot the obligation is created at.
    pub current_slot: u64,
    /// Market the obligation belongs to.
    pub lending_market: Address,
    /// Position owner.
    pub owner: Address,
    /// Initial collateral entries.
    pub deposits: Vec<Collateral>,
    /// Initial borrow entries.
    pub borrows: Vec<Liquidity>,
}

/// A user's position: deposits, borrows and cached aggregate valuations.
#[derive(Clone, Debug, PartialEq, Eq)]
pub struct Obligation {
    /// Market the obligation belongs to.
    pub lending_market: Address,
    /// Position owner.
    pub owner: Address,
    /// Collateral entries, one per reserve.
    pub deposits: Vec<Collateral>,
    /// Borrow entries, one per reserve.
    pub borrows: Vec<Liquidity>,
    /// Total market value of the deposits.
    pub deposited_value: Decimal,
    /// Total market value of the borrows.
    pub borrowed_value: Decimal,
    /// Borrow capacity granted by the deposits.
    pub allowed_borrow_value: Decimal,
    /// Borrowed value beyond which the position may be liquidated.
    pub unhealthy_borrow_value: Decimal,
    /// Staleness marker.
    pub last_update: LastUpdate,
}

/// First index holding a collateral entry for `reserve`, or -1 when none
/// does.
pub open spec fn deposit_index(s: Seq<Collateral>, reserve: Address) -> int
    decreases s.len(),
{
    if s.len() == 0 {
        -1
    } else if s[0].deposit_reserve == reserve {
        0
    } else if deposit_index(s.drop_first(), reserve) == -1 {
        -1
    } else {
        deposit_index(s.drop_first(), reserve) + 1
    }
}

/// First index holding a borrow entry for `reserve`, or -1 when none does.
pub open spec fn borrow_index(s: Seq<Liquidity>, reserve: Address) -> int
    decreases s.len(),
{
    if s.len() == 0 {
        -1
    } else if s[0].borrow_reserve == reserve {
        0
    } else if borrow_index(s.drop_first(), reserve) == -1 {
        -1
    } else {
        borrow_index(s.drop_first(), reserve) + 1
    }
}

/// `deposit_index` finds the first matching entry, and -1 only when no entry
/// matches.
pub proof fn lemma_deposit_index(s: Seq<Collateral>, reserve: Address)
    ensures
        deposit_index(s, reserve) == -1 ==> forall|j: int|
            0 <= j < s.len() ==> s[j].deposit_reserve != reserve,
        deposit_index(s, reserve) != -1 ==> 0 <= deposit_index(s, reserve) < s.len() && s[
            deposit_index(s, reserve)].deposit_reserve == reserve && (forall|j: int|
            0 <= j < deposit_index(s, reserve) ==> s[j].deposit_reserve != reserve),
    decreases s.len(),
{
    if s.len() != 0 && s[0].deposit_reserve != reserve {
        let rest = deposit_index(s.drop_first(), reserve);
        lemma_deposit_index(s.drop_first(), reserve);
        if rest == -1 {
            assert forall|j: int| 0 <= j < s.len() implies s[j].deposit_reserve != reserve by {
                if j > 0 {
                    assert(s.drop_first()[j - 1] == s[j]);
                }
            }
        } else {
            assert(s.drop_first()[rest] == s[rest + 1]);
            assert forall|j: int| 0 <= j < rest + 1 implies s[j].deposit_reserve != reserve by {
                if j > 0 {
                    assert(s.drop_first()[j - 1] == s[j]);
                }
            }
        }
    }
}

/// `borrow_index` finds the first matching entry, and -1 only when no entry
/// matches.
pub proof fn lemma_borrow_index(s: Seq<Liquidity>, reserve: Address)
    ensures
        borrow_index(s, reserve) == -1 ==> forall|j: int|
            0 <= j < s.len() ==> s[j].borrow_reserve != reserve,
        borrow_index(s, reserve) != -1 ==> 0 <= borrow_index(s, reserve) < s.len() && s[
            borrow_index(s, reserve)].borrow_reserve == reserve && (forall|j: int|
            0 <= j < borrow_index(s, reserve) ==> s[j].borrow_reserve != reserve),
    decreases s.len(),
{
    if s.len() != 0 && s[0].borrow_reserve != reserve {
        let rest = borrow_index(s.drop_first(), reserve);
        lemma_borrow_index(s.drop_first(), reserve);
        if rest == -1 {
            assert forall|j: int| 0 <= j < s.len() implies s[j].borrow_reserve != reserve by {
                if j > 0 {
                    assert(s.drop_first()[j - 1] == s[j]);
                }
            }
        } else {
            assert(s.drop_first()[rest] == s[rest + 1]);
            assert forall|j: int| 0 <= j < rest + 1 implies s[j].borrow_reserve != reserve by {
                if j > 0 {
                    assert(s.drop_first()[j - 1] == s[j]);
                }
            }
        }
    }
}

impl Obligation {
    /// Create a position, fresh at the given slot.
    pub fn new(params: InitObligationParams) -> (r: Self)
        ensures
            r.lending_market == params.lending_market,
            r.owner == params.owner,
            r.deposits@ == params.deposits@,
            r.borrows@ == params.borrows@,
            r.deposited_value.val() == 0,
            r.borrowed_value.val() == 0,
            r.allowed_borrow_value.val() == 0,
            r.unhealthy_borrow_value.val() == 0,
            r.last_update == (LastUpdate { slot: params.current_slot, stale: false }),
    {
        Self {
            lending_market: params.lending_market,
            owner: params.owner,
            deposits: params.deposits,
            borrows: params.borrows,
            deposited_value: Decimal::zero(),
            borrowed_value: Decimal::zero(),
            allowed_borrow_value: Decimal::zero(),
            unhealthy_borrow_value: Decimal::zero(),
            last_update: LastUpdate { slot: params.current_slot, stale: false },
        }
    }

    /// Index of the collateral entry for `reserve`, adding an empty entry
    /// when absent.
    #[verifier::loop_isolation(false)]
    pub fn find_or_add_collateral_to_deposits(&mut self, reserve: Address) -> (r: Result<
        usize,
        LendingError,
    >)
        ensures
            deposit_index(old(self).deposits@, reserve) >= 0 ==> (r matches Ok(i) && i
                == deposit_index(old(self).deposits@, reserve) && i < old(self).deposits@.len()
                && *final(self) == *old(self)),
            deposit_index(old(self).deposits@, reserve) == -1 ==> (r matches Ok(i) && i == old(self).deposits@.len() && final(self).deposits@ == old(self).deposits@.push((Collateral {
                deposit_reserve: reserve,
                deposited_amount: (Uint256 { hi: 0, lo: 0 }),
                market_value: Decimal((Uint256 { hi: 0, lo: 0 })),
            })) && *final(self) == (Obligation { deposits: final(self).deposits, ..*old(self) })),
    {
        proof {
            lemma_deposit_index(self.deposits@, reserve);
        }
        let n = self.deposits.len();
        let mut i: usize = 0;
        while i < n
            invariant
                i <= n,
                forall|j: int| 0 <= j < i ==> self.deposits@[j].deposit_reserve != reserve,
            decreases n - i,
        {
            if self.deposits[i].deposit_reserve == reserve {
                return Ok(i);
            }
            i += 1;
        }
        let entry = Collateral {
            deposit_reserve: reserve,
            deposited_amount: Uint256::zero(),
            market_value: Decimal::zero(),
        };
        proof {
            entry.deposited_amount.lemma_cmp((Uint256 { hi: 0, lo: 0 }));
            entry.market_value.0.lemma_cmp((Uint256 { hi: 0, lo: 0 }));
        }
        self.deposits.push(entry);
        Ok(n)
    }

    /// Find the collateral entry for `reserve`.
    #[verifier::loop_isolation(false)]
    pub fn find_collateral_in_deposits(&self, reserve: Address) -> (r: Result<
        (Collateral, usize),
        LendingError,
    >)
        ensures
            deposit_index(self.deposits@, reserve) == -1 ==> (r matches Err(e) && e
                == LendingError::ObligationCollateralEmpty),
            deposit_index(self.deposits@, reserve) >= 0 ==> (r matches Ok(p) && p.1
                == deposit_index(self.deposits@, reserve) && p.0 == self.deposits@[p.1 as int]),
    {
        proof {
            lemma_deposit_index(self.deposits@, reserve);
        }
        let n = self.deposits.len();
        let mut i: usize = 0;
        while i < n
            invariant
                i <= n,
                forall|j: int| 0 <= j < i ==> self.deposits@[j].deposit_reserve != reserve,
            decreases n - i,
        {
            if self.deposits[i].deposit_reserve == reserve {
                return Ok((self.deposits[i], i));
            }
            i += 1;
        }
        Err(LendingError::ObligationCollateralEmpty)
    }

    /// Index of the borrow entry for `reserve`, adding an empty entry when
    /// absent.
    #[verifier::loop_isolation(false)]
    pub fn find_or_add_liquidity_to_borrows(&mut self, reserve: Address) -> (r: Result<
        usize,
        LendingError,
    >)
        ensures
            borrow_index(old(self).borrows@, reserve) >= 0 ==> (r matches Ok(i) && i
                == borrow_index(old(self).borrows@, reserve) && i < old(self).borrows@.len()
                && *final(self) == *old(self)),
            borrow_index(old(self).borrows@, reserve) == -1 ==> (r matches Ok(i) && i == old(self).borrows@.len() && final(self).borrows@ == old(self).borrows@.push((Liquidity {
                borrow_reserve: reserve,
                borrowed_amount_wads: Decimal((Uint256 { hi: 0, lo: 0 })),
                market_value: Decimal((Uint256 { hi: 0, lo: 0 })),
                cumulative_borrow_rate_wads: Decimal(
                    (Uint256 { hi: 0, lo: crate::math::common::WAD as u128 }),
                ),
            })) && *final(self) == (Obligation { borrows: final(self).borrows, ..*old(self) })),
    {
        proof {
            lemma_borrow_index(self.borrows@, reserve);
        }
        let n = self.borrows.len();
        let mut i: usize = 0;
        while i < n
            invariant
                i <= n,
                forall|j: int| 0 <= j < i ==> self.borrows@[j].borrow_reserve != reserve,
            decreases n - i,
        {
            if self.borrows[i].borrow_reserve == reserve {
                return Ok(i);
            }
            i += 1;
        }
        let entry = Liquidity {
            borrow_reserve: reserve,
            borrowed_amount_wads: Decimal::zero(),
            market_value: Decimal::zero(),
            cumulative_borrow_rate_wads: Decimal::one(),
        };
        proof {
            entry.borrowed_amount_wads.0.lemma_cmp((Uint256 { hi: 0, lo: 0 }));
            entry.market_value.0.lemma_cmp((Uint256 { hi: 0, lo: 0 }));
            entry.cumulative_borrow_rate_wads.0.lemma_cmp(
                (Uint256 { hi: 0, lo: crate::math::common::WAD as u128 }),
            );
        }
        self.borrows.push(entry);
        Ok(n)
    }

    /// Find the borrow entry for `reserve`.
    #[verifier::loop_isolation(false)]
    pub fn find_liquidity_in_borrows(&self, reserve: Address) -> (r: Result<
        (Liquidity, usize),
        LendingError,
    >)
        ensures
            borrow_index(self.borrows@, reserve) == -1 ==> (r matches Err(e) && e
                == LendingError::ObligationLiquidityEmpty),
            borrow_index(self.borrows@, reserve) >= 0 ==> (r matches Ok(p) && p.1
                == borrow_index(self.borrows@, reserve) && p.0 == self.borrows@[p.1 as int]),
    {
        proof {
            lemma_borrow_index(self.borrows@, reserve);
        }
        let n = self.borrows.len();
        let mut i: usize = 0;
        while i < n
            invariant
                i <= n,
                forall|j: int| 0 <= j < i ==> self.borrows@[j].borrow_reserve != reserve,
            decreases n - i,
        {
            if self.borrows[i].borrow_reserve == reserve {
                return Ok((self.borrows[i], i));
            }
            i += 1;
        }
        Err(LendingError::ObligationLiquidityEmpty)
    }

    /// Take collateral from the entry at `index`, removing the entry when it
    /// is emptied.
    pub fn withdraw(&mut self, amount: Uint256, index: usize) -> (r: Result<(), LendingError>)
        ensures
            index >= old(self).deposits@.len() ==> (r matches Err(e) && e
                == LendingError::InvalidAccountInput && *final(self) == *old(self)),
            index < old(self).deposits@.len() && amount.as_nat() > old(self).deposits@[index as int].deposited_amount.as_nat() ==> (r matches Err(e) && e
                == LendingError::WithdrawTooLarge && *final(self) == *old(self)),
            index < old(self).deposits@.len() && amount.as_nat() == old(self).deposits@[index as int].deposited_amount.as_nat() ==> (r is Ok && final(self).deposits@ == old(self).deposits@.remove(index as int) && *final(self) == (Obligation {
                deposits: final(self).deposits,
                ..*old(self)
            })),
            index < old(self).deposits@.len() && amount.as_nat() < old(self).deposits@[index as int].deposited_amount.as_nat() ==> (r is Ok && final(self).deposits@ == old(self).deposits@.update(index as int, (Collateral {
                deposited_amount: final(self).deposits@[index as int].deposited_amount,
                ..old(self).deposits@[index as int]
            })) && final(self).deposits@[index as int].deposited_amount.as_nat() == old(self).deposits@[index as int].deposited_amount.as_nat() - amount.as_nat() && *final(self)
                == (Obligation { deposits: final(self).deposits, ..*old(self) })),
    {
        if index >= self.deposits.len() {
            return Err(LendingError::InvalidAccountInput);
        }
        proof {
            amount.lemma_cmp(self.deposits@[index as int].deposited_amount);
        }
        if amount.gt(&self.deposits[index].deposited_amount) {
            return Err(LendingError::WithdrawTooLarge);
        }
        if amount == self.deposits[index].deposited_amount {
            self.deposits.remove(index);
            return Ok(());
        }
        let mut entry = self.deposits[index];
        entry.deposited_amount = entry.deposited_amount.try_sub(amount)?;
        self.deposits.set(index, entry);
        Ok(())
    }

    /// Settle debt against the borrow entry at `index`, removing the entry
    /// when it is settled in full.
    pub fn repay(&mut self, amount: Decimal, index: usize) -> (r: Result<(), LendingError>)
        ensures
            index >= old(self).borrows@.len() ==> (r matches Err(e) && e
                == LendingError::InvalidAccountInput && *final(self) == *old(self)),
            index < old(self).borrows@.len() && amount.val() > old(self).borrows@[index as int].borrowed_amount_wads.val() ==> (r matches Err(e) && e
                == LendingError::RepayTooSmall && *final(self) == *old(self)),
            index < old(self).borrows@.len() && amount.val() == old(self).borrows@[index as int].borrowed_amount_wads.val() ==> (r is Ok && final(self).borrows@ == old(self).borrows@.remove(index as int) && *final(self) == (Obligation {
                borrows: final(self).borrows,
                ..*old(self)
            })),
            index < old(self).borrows@.len() && amount.val() < old(self).borrows@[index as int].borrowed_amount_wads.val() ==> (r is Ok && final(self).borrows@ == old(self).borrows@.update(index as int, (Liquidity {
                borrowed_amount_wads: final(self).borrows@[index as int].borrowed_amount_wads,
                ..old(self).borrows@[index as int]
            })) && final(self).borrows@[index as int].borrowed_amount_wads.val() == old(self).borrows@[index as int].borrowed_amount_wads.val() - amount.val() && *final(self)
                == (Obligation { borrows: final(self).borrows, ..*old(self) })),
    {
        if index >= self.borrows.len() {
            return Err(LendingError::InvalidAccountInput);
        }
        proof {
            amount.0.lemma_cmp(self.borrows@[index as int].borrowed_amount_wads.0);
        }
        if amount.gt(&self.borrows[index].borrowed_amount_wads) {
            return Err(LendingError::RepayTooSmall);
        }
        if amount == self.borrows[index].borrowed_amount_wads {
            self.borrows.remove(index);
            return Ok(());
        }
        let mut entry = self.borrows[index];
        entry.borrowed_amount_wads = entry.borrowed_amount_wads.try_sub(amount)?;
        self.borrows.set(index, entry);
        Ok(())
    }

    /// Unused borrow capacity, clamped to zero when the position is over its
    /// limit.
    pub fn remaining_borrow_value(&self) -> (r: Result<Decimal, LendingError>)
        ensures
            self.borrowed_value.val() >= self.allowed_borrow_value.val() ==> (r matches Ok(d)
                && d.val() == 0),
            self.borrowed_value.val() < self.allowed_borrow_value.val() ==> (r matches Ok(d)
                && d.val() == self.allowed_borrow_value.val() - self.borrowed_value.val()),
    {
        if self.borrowed_value.ge(&self.allowed_borrow_value) {
            return Ok(Decimal::zero());
        }
        self.allowed_borrow_value.try_sub(self.borrowed_value)
    }

    /// Largest collateral value that may leave the position: the full
    /// deposited value when nothing is borrowed, else the capacity the
    /// deposits grant at `rate` minus the borrowed value, clamped to zero.
    pub fn max_withdraw_value(&self, rate: Rate) -> (r: Result<Decimal, LendingError>)
        ensures
            self.borrows@.len() == 0 ==> (r matches Ok(d) && d.val()
                == self.deposited_value.val()),
            self.borrows@.len() > 0 && !wad_mul_ok(self.deposited_value.val(), rate.val())
                ==> (r matches Err(e) && e == LendingError::MathOverflow),
            self.borrows@.len() > 0 && wad_mul_ok(self.deposited_value.val(), rate.val())
                && wad_mul(self.deposited_value.val(), rate.val()) <= self.borrowed_value.val()
                ==> (r matches Ok(d) && d.val() == 0),
            self.borrows@.len() > 0 && wad_mul_ok(self.deposited_value.val(), rate.val())
                && wad_mul(self.deposited_value.val(), rate.val()) > self.borrowed_value.val()
                ==> (r matches Ok(d) && d.val() == wad_mul(self.deposited_value.val(), rate.val())
                - self.borrowed_value.val()),
    {
        if self.borrows.len() == 0 {
            return Ok(self.deposited_value);
        }
        let available_value = self.deposited_value.try_mul(rate)?;
        if available_value.le(&self.borrowed_value) {
            return Ok(Decimal::zero());
        }
        available_value.try_sub(self.borrowed_value)
    }
}

/// Element-wise copy of a collateral list.
#[verifier::loop_isolation(false)]
fn copy_collateral_vec(v: &Vec<Collateral>) -> (r: Vec<Collateral>)
    ensures
        r@ == v@,
{
    let mut out: Vec<Collateral> = Vec::new();
    let n = v.len();
    let mut i: usize = 0;
    while i < n
        invariant
            i <= n,
            out@ == v@.take(i as int),
        decreases n - i,
    {
        out.push(v[i]);
        proof {
            assert(v@.take(i + 1 as int) =~= v@.take(i as int).push(v@[i as int]));
        }
        i += 1;
    }
    proof {
        assert(v@.take(n as int) =~= v@);
    }
    out
}

/// Element-wise copy of a borrow list.
#[verifier::loop_isolation(false)]
fn copy_liquidity_vec(v: &Vec<Liquidity>) -> (r: Vec<Liquidity>)
    ensures
        r@ == v@,
{
    let mut out: Vec<Liquidity> = Vec::new();
    let n = v.len();
    let mut i: usize = 0;
    while i < n
        invariant
            i <= n,
            out@ == v@.take(i as int),
        decreases n - i,
    {
        out.push(v[i]);
        proof {
            assert(v@.take(i + 1 as int) =~= v@.take(i as int).push(v@[i as int]));
        }
        i += 1;
    }
    proof {
        assert(v@.take(n as int) =~= v@);
    }
    out
}

/// Field-wise copy of an obligation.
fn copy_obligation(src: &Obligation) -> (r: Obligation)
    ensures
        r.lending_market == src.lending_market,
        r.owner == src.owner,
        r.deposits@ == src.deposits@,
        r.borrows@ == src.borrows@,
        r.deposited_value == src.deposited_value,
        r.borrowed_value == src.borrowed_value,
        r.allowed_borrow_value == src.allowed_borrow_value,
        r.unhealthy_borrow_value == src.unhealthy_borrow_value,
        r.last_update == src.last_update,
{
    Obligation {
        lending_market: src.lending_market,
        owner: src.owner,
        deposits: copy_collateral_vec(&src.deposits),
        borrows: copy_liquidity_vec(&src.borrows),
        deposited_value: src.deposited_value,
        borrowed_value: src.borrowed_value,
        allowed_borrow_value: src.allowed_borrow_value,
        unhealthy_borrow_value: src.unhealthy_borrow_value,
        last_update: src.last_update,
    }
}

/// The lending market: configuration, reserves and obligations, keyed by
/// stable addresses.
#[derive(Clone, Debug)]
pub struct NovaLending {
    /// Market owner, entitled to admin operations.
    pub owner: Address,
    /// Currency valuations are quoted in.
    pub quote_currency: [u8; 32],
    /// Token-transfer collaborator identity.
    pub token_program_id: Address,
    /// Price-oracle collaborator identity.
    pub oracle_program_id: Address,
    /// Reserves by key.
    pub reserves: Vec<(Address, Reserve)>,
    /// Obligations by owner.
    pub obligations: Vec<(Address, Obligation)>,
    /// Seed the market authority was derived with.
    pub bump_seed: u8,
    /// Slot of the last market-level update.
    pub last_update_slot: u64,
    /// Number of reserves created so far.
    pub reserve_count: u64,
    /// Address this market is deployed at.
    pub self_address: Address,
}

impl NovaLending {
    /// Initialize a lending market.
    pub fn init(
        self_address: Address,
        owner: Address,
        quote_currency: [u8; 32],
        token_program_id: Address,
        oracle_program_id: Address,
    ) -> (r: Self)
        ensures
            r.owner == owner,
            r.quote_currency == quote_currency,
            r.token_program_id == token_program_id,
            r.oracle_program_id == oracle_program_id,
            r.reserves@.len() == 0,
            r.obligations@.len() == 0,
            r.bump_seed == 255,
            r.last_update_slot == 0,
            r.reserve_count == 0,
            r.self_address == self_address,
    {
        let mut market = NovaLending {
            owner,
            quote_currency,
            token_program_id,
            oracle_program_id,
            reserves: Vec::new(),
            obligations: Vec::new(),
            bump_seed: 0,
            last_update_slot: 0,
            reserve_count: 0,
            self_address,
        };
        let bump = market.generate_bump_seed();
        market.bump_seed = bump;
        market
    }

    /// Seed the market authority is derived with.
    fn generate_bump_seed(&self) -> (r: u8)
        ensures
            r == 255,
    {
        255
    }

    /// Deterministic key for the next reserve.
    fn generate_reserve_key(&self) -> (r: Address)
        ensures
            r == Address(self.reserve_count),
    {
        Address(self.reserve_count)
    }

    /// Deterministic placeholder identity derived from the current slot.
    fn generate_temp_address(&self, clock: u64) -> (r: Address)
        ensures
            r == Address(clock),
    {
        Address(clock)
    }

    /// Hand the market to a new owner; only the current owner may.
    pub fn set_lending_market_owner(&mut self, caller: Address, new_owner: Address) -> (r: Result<
        (),
        LendingError,
    >)
        ensures
            caller != old(self).owner ==> (r matches Err(e) && e
                == LendingError::InvalidMarketOwner && *final(self) == *old(self)),
            caller == old(self).owner ==> (r is Ok && *final(self) == (NovaLending {
                owner: new_owner,
                ..*old(self)
            })),
    {
        if caller != self.owner {
            return Err(LendingError::InvalidMarketOwner);
        }
        self.owner = new_owner;
        Ok(())
    }

    /// Create a reserve seeded with `liquidity_amount` at the supplied oracle
    /// price; only the market owner may.
    pub fn init_reserve(
        &mut self,
        caller: Address,
        clock: u64,
        market_price: Decimal,
        liquidity_amount: Uint256,
        config: ReserveConfig,
    ) -> (r: Result<(), LendingError>)
        requires
            old(self).reserve_count < u64::MAX,
        ensures
            liquidity_amount.as_nat() == 0 ==> (r matches Err(e) && e
                == LendingError::InvalidAmount && *final(self) == *old(self)),
            liquidity_amount.as_nat() != 0 && !config.is_valid() ==> (r matches Err(e) && e
                == LendingError::InvalidConfig && *final(self) == *old(self)),
            liquidity_amount.as_nat() != 0 && config.is_valid() && caller != old(self).owner
                ==> (r matches Err(e) && e == LendingError::InvalidMarketOwner && *final(self)
                == *old(self)),
            liquidity_amount.as_nat() != 0 && config.is_valid() && caller == old(self).owner
                ==> (r is Ok && final(self).reserves@ == old(self).reserves@.push(
                (
                    (Address(old(self).reserve_count)),
                    (Reserve {
                        lending_market: old(self).self_address,
                        liquidity: (ReserveLiquidity {
                            mint_pubkey: (Address(clock)),
                            mint_decimals: 9,
                            supply_pubkey: (Address(clock)),
                            fee_receiver: caller,
                            oracle_pubkey: old(self).oracle_program_id,
                            market_price,
                            available_amount: liquidity_amount,
                            borrowed_amount_wads: Decimal((Uint256 { hi: 0, lo: 0 })),
                            cumulative_borrow_rate_wads: Decimal(
                                (Uint256 { hi: 0, lo: crate::math::common::WAD as u128 }),
                            ),
                        }),
                        collateral: (ReserveCollateral {
                            mint_pubkey: (Address(clock)),
                            supply_pubkey: (Address(clock)),
                            mint_total_supply: (Uint256 { hi: 0, lo: 0 }),
                        }),
                        config,
                        last_update: (LastUpdate { slot: clock, stale: false }),
                    }),
                ),
            ) && final(self).reserve_count == old(self).reserve_count + 1 && *final(self) == (
            NovaLending {
                reserves: final(self).reserves,
                reserve_count: final(self).reserve_count,
                ..*old(self)
            })),
    {
        if liquidity_amount.is_zero() {
            return Err(LendingError::InvalidAmount);
        }
        config.validate()?;
        if caller != self.owner {
            return Err(LendingError::InvalidMarketOwner);
        }
        let zero = Uint256::zero();
        let one = Decimal::one();
        let zero_dec = Decimal::zero();
        proof {
            zero.lemma_cmp((Uint256 { hi: 0, lo: 0 }));
            one.0.lemma_cmp((Uint256 { hi: 0, lo: crate::math::common::WAD as u128 }));
            zero_dec.0.lemma_cmp((Uint256 { hi: 0, lo: 0 }));
        }
        let temp = self.generate_temp_address(clock);
        let reserve = Reserve::new(
            InitReserveParams {
                current_slot: clock,
                lending_market: self.self_address,
                liquidity: ReserveLiquidity::new(
                    NewReserveLiquidityParams {
                        mint_pubkey: temp,
                        mint_decimals: 9,
                        supply_pubkey: temp,
                        fee_receiver: caller,
                        oracle_pubkey: self.oracle_program_id,
                        market_price,
                        available_amount: liquidity_amount,
                        borrowed_amount_wads: zero_dec,
                        cumulative_borrow_rate_wads: one,
                    },
                ),
                collateral: ReserveCollateral::new(
                    NewReserveCollateralParams {
                        mint_pubkey: temp,
                        supply_pubkey: temp,
                        mint_total_supply: zero,
                    },
                ),
                config,
            },
        );
        let reserve_key = self.generate_reserve_key();
        self.reserves.push((reserve_key, reserve));
        self.reserve_count = self.reserve_count + 1;
        Ok(())
    }

    /// Refresh a reserve with the current oracle price and clear its
    /// staleness.
    pub fn refresh_reserve(&mut self, reserve_key: Address, clock: u64, market_price: Decimal) -> (
    r: Result<(), LendingError>)
        ensures
            pair_key_index(old(self).reserves@, reserve_key) == -1 ==> (r matches Err(e) && e
                == LendingError::InvalidAccountInput && *final(self) == *old(self)),
            pair_key_index(old(self).reserves@, reserve_key) >= 0 ==> (r is Ok && final(self).reserves@ == old(self).reserves@.update(
                pair_key_index(old(self).reserves@, reserve_key),
                (
                    reserve_key,
                    (Reserve {
                        liquidity: (ReserveLiquidity {
                            market_price,
                            ..old(self).reserves@[pair_key_index(
                                old(self).reserves@,
                                reserve_key,
                            )].1.liquidity
                        }),
                        last_update: (LastUpdate { slot: clock, stale: false }),
                        ..old(self).reserves@[pair_key_index(old(self).reserves@, reserve_key)].1
                    }),
                ),
            ) && *final(self) == (NovaLending { reserves: final(self).reserves, ..*old(self) })),
    {
        let idx = match find_pair_index(&self.reserves, reserve_key) {
            Some(i) => i,
            None => {
                return Err(LendingError::InvalidAccountInput);
            },
        };
        let mut reserve = self.reserves[idx].1;
        reserve.liquidity.market_price = market_price;
        reserve.accrue_interest(clock)?;
        reserve.last_update.update_slot(clock);
        self.reserves.set(idx, (reserve_key, reserve));
        Ok(())
    }

    /// Deposit liquidity into a fresh reserve, minting collateral at the
    /// current exchange rate.
    pub fn deposit_reserve_liquidity(
        &mut self,
        reserve_key: Address,
        liquidity_amount: Uint256,
        clock: u64,
    ) -> (r: Result<Uint256, LendingError>)
        requires
            liquidity_amount.as_nat() < u128_limit(),
            pair_key_index(old(self).reserves@, reserve_key) >= 0 ==> old(self).reserves@[pair_key_index(old(self).reserves@, reserve_key)].1.spec_exchange_rate_safe(),
        ensures
            liquidity_amount.as_nat() == 0 ==> (r matches Err(e) && e
                == LendingError::InvalidAmount && *final(self) == *old(self)),
            liquidity_amount.as_nat() != 0 && pair_key_index(old(self).reserves@, reserve_key)
                == -1 ==> (r matches Err(e) && e == LendingError::InvalidAccountInput && *final(self) == *old(self)),
            liquidity_amount.as_nat() != 0 && pair_key_index(old(self).reserves@, reserve_key)
                >= 0 && old(self).reserves@[pair_key_index(
                old(self).reserves@,
                reserve_key,
            )].1.last_update.is_stale_spec(clock) ==> (r matches Err(e) && e
                == LendingError::ReserveStale && *final(self) == *old(self)),
            liquidity_amount.as_nat() != 0 && pair_key_index(old(self).reserves@, reserve_key)
                >= 0 && !old(self).reserves@[pair_key_index(
                old(self).reserves@,
                reserve_key,
            )].1.last_update.is_stale_spec(clock) ==> ({
                let i = pair_key_index(old(self).reserves@, reserve_key);
                let rsv = old(self).reserves@[i].1;
                let minted = rsv.spec_minted(liquidity_amount.as_nat());
                if wad_mul_ok(rsv.spec_exchange_rate(), liquidity_amount.as_nat() * (WAD as nat))
                    && minted <= u64::MAX && rsv.liquidity.available_amount.as_nat()
                    + liquidity_amount.as_nat() < u256_limit()
                    && rsv.collateral.mint_total_supply.as_nat() + minted < u256_limit() {
                    r matches Ok(c) && c.as_nat() == minted && final(self).reserves@ == old(self).reserves@.update(i, (reserve_key, final(self).reserves@[i].1)) && final(self).reserves@[i].1 == (Reserve {
                        liquidity: (ReserveLiquidity {
                            available_amount: final(self).reserves@[i].1.liquidity.available_amount,
                            ..rsv.liquidity
                        }),
                        collateral: (ReserveCollateral {
                            mint_total_supply: final(self).reserves@[i].1.collateral.mint_total_supply,
                            ..rsv.collateral
                        }),
                        last_update: (LastUpdate { stale: true, ..rsv.last_update }),
                        ..rsv
                    }) && final(self).reserves@[i].1.liquidity.available_amount.as_nat()
                        == rsv.liquidity.available_amount.as_nat() + liquidity_amount.as_nat()
                        && final(self).reserves@[i].1.collateral.mint_total_supply.as_nat()
                        == rsv.collateral.mint_total_supply.as_nat() + minted && *final(self) == (
                    NovaLending { reserves: final(self).reserves, ..*old(self) })
                } else {
                    r matches Err(e) && e == LendingError::MathOverflow && *final(self) == *old(self)
                }
            }),
    {
        if liquidity_amount.is_zero() {
            return Err(LendingError::InvalidAmount);
        }
        let idx = match find_pair_index(&self.reserves, reserve_key) {
            Some(i) => i,
            None => {
                return Err(LendingError::InvalidAccountInput);
            },
        };
        let mut reserve = self.reserves[idx].1;
        if reserve.last_update.is_stale(clock) {
            return Err(LendingError::ReserveStale);
        }
        let collateral_amount = reserve.deposit_liquidity(liquidity_amount)?;
        reserve.last_update.mark_stale();
        self.reserves.set(idx, (reserve_key, reserve));
        Ok(collateral_amount)
    }

    /// Redeem collateral from a fresh reserve, releasing liquidity at the
    /// current exchange rate.
    pub fn redeem_reserve_collateral(
        &mut self,
        reserve_key: Address,
        collateral_amount: Uint256,
        clock: u64,
    ) -> (r: Result<Uint256, LendingError>)
        requires
            collateral_amount.as_nat() < u128_limit(),
            pair_key_index(old(self).reserves@, reserve_key) >= 0 ==> old(self).reserves@[pair_key_index(old(self).reserves@, reserve_key)].1.spec_exchange_rate_safe()
                && old(self).reserves@[pair_key_index(
                old(self).reserves@,
                reserve_key,
            )].1.liquidity.available_amount.as_nat() <= u64::MAX,
        ensures
            collateral_amount.as_nat() == 0 ==> (r matches Err(e) && e
                == LendingError::InvalidAmount && *final(self) == *old(self)),
            collateral_amount.as_nat() != 0 && pair_key_index(old(self).reserves@, reserve_key)
                == -1 ==> (r matches Err(e) && e == LendingError::InvalidAccountInput && *final(self) == *old(self)),
            collateral_amount.as_nat() != 0 && pair_key_index(old(self).reserves@, reserve_key)
                >= 0 && old(self).reserves@[pair_key_index(
                old(self).reserves@,
                reserve_key,
            )].1.last_update.is_stale_spec(clock) ==> (r matches Err(e) && e
                == LendingError::ReserveStale && *final(self) == *old(self)),
            collateral_amount.as_nat() != 0 && pair_key_index(old(self).reserves@, reserve_key)
                >= 0 && !old(self).reserves@[pair_key_index(
                old(self).reserves@,
                reserve_key,
            )].1.last_update.is_stale_spec(clock) ==> ({
                let i = pair_key_index(old(self).reserves@, reserve_key);
                let rsv = old(self).reserves@[i].1;
                let redeemed = rsv.spec_redeemed(collateral_amount.as_nat());
                if rsv.spec_exchange_rate() == 0 || redeemed > u64::MAX {
                    r matches Err(e) && e == LendingError::MathOverflow && *final(self) == *old(self)
                } else if redeemed > rsv.liquidity.available_amount.as_nat() {
                    r matches Err(e) && e == LendingError::InsufficientLiquidity && *final(self)
                        == *old(self)
                } else if collateral_amount.as_nat() > rsv.collateral.mint_total_supply.as_nat() {
                    r matches Err(e) && e == LendingError::InsufficientCollateral && *final(self)
                        == *old(self)
                } else {
                    r matches Ok(l) && l.as_nat() == redeemed && final(self).reserves@ == old(self).reserves@.update(i, (reserve_key, final(self).reserves@[i].1)) && final(self).reserves@[i].1 == (Reserve {
                        liquidity: (ReserveLiquidity {
                            available_amount: final(self).reserves@[i].1.liquidity.available_amount,
                            ..rsv.liquidity
                        }),
                        collateral: (ReserveCollateral {
                            mint_total_supply: final(self).reserves@[i].1.collateral.mint_total_supply,
                            ..rsv.collateral
                        }),
                        last_update: (LastUpdate { stale: true, ..rsv.last_update }),
                        ..rsv
                    }) && final(self).reserves@[i].1.liquidity.available_amount.as_nat()
                        == rsv.liquidity.available_amount.as_nat() - redeemed && final(self).reserves@[i].1.collateral.mint_total_supply.as_nat()
                        == rsv.collateral.mint_total_supply.as_nat()
                        - collateral_amount.as_nat() && *final(self) == (NovaLending {
                        reserves: final(self).reserves,
                        ..*old(self)
                    })
                }
            }),
    {
        if collateral_amount.is_zero() {
            return Err(LendingError::InvalidAmount);
        }
        let idx = match find_pair_index(&self.reserves, reserve_key) {
            Some(i) => i,
            None => {
                return Err(LendingError::InvalidAccountInput);
            },
        };
        let mut reserve = self.reserves[idx].1;
        if reserve.last_update.is_stale(clock) {
            return Err(LendingError::ReserveStale);
        }
        let liquidity_amount = reserve.redeem_collateral(collateral_amount)?;
        reserve.last_update.mark_stale();
        self.reserves.set(idx, (reserve_key, reserve));
        Ok(liquidity_amount)
    }

    /// Create an empty obligation for `caller`.
    pub fn init_obligation(&mut self, caller: Address, clock: u64) -> (r: Result<
        (),
        LendingError,
    >)
        ensures
            pair_key_index(old(self).obligations@, caller) >= 0 ==> (r matches Err(e) && e
                == LendingError::AlreadyInitialized && *final(self) == *old(self)),
            pair_key_index(old(self).obligations@, caller) == -1 ==> (r is Ok && final(self).obligations@.len() == old(self).obligations@.len() + 1 && final(self).obligations@ == old(self).obligations@.push(
                final(self).obligations@.last(),
            ) && final(self).obligations@.last().0 == caller && ({
                let ob = final(self).obligations@.last().1;
                ob.lending_market == old(self).self_address && ob.owner == caller
                    && ob.deposits@.len() == 0 && ob.borrows@.len() == 0
                    && ob.deposited_value.val() == 0 && ob.borrowed_value.val() == 0
                    && ob.allowed_borrow_value.val() == 0 && ob.unhealthy_borrow_value.val() == 0
                    && ob.last_update == (LastUpdate { slot: clock, stale: false })
            }) && *final(self) == (NovaLending { obligations: final(self).obligations, ..*old(self) })),
    {
        let existing = find_pair_index(&self.obligations, caller);
        if let Some(_i) = existing {
            return Err(LendingError::AlreadyInitialized);
        }
        let obligation = Obligation::new(
            InitObligationParams {
                current_slot: clock,
                lending_market: self.self_address,
                owner: caller,
                deposits: Vec::new(),
                borrows: Vec::new(),
            },
        );
        self.obligations.push((caller, obligation));
        Ok(())
    }

    /// Look up a reserve by key.
    pub fn get_reserve(&self, reserve_key: Address) -> (r: Option<Reserve>)
        ensures
            pair_key_index(self.reserves@, reserve_key) == -1 ==> r is None,
            pair_key_index(self.reserves@, reserve_key) >= 0 ==> (r matches Some(rsv) && rsv
                == self.reserves@[pair_key_index(self.reserves@, reserve_key)].1),
    {
        match find_pair_index(&self.reserves, reserve_key) {
            Some(i) => Some(self.reserves[i].1),
            None => None,
        }
    }

    /// Look up an obligation by its owner.
    pub fn get_obligation(&self, user_address: Address) -> (r: Option<Obligation>)
        ensures
            pair_key_index(self.obligations@, user_address) == -1 ==> r is None,
            pair_key_index(self.obligations@, user_address) >= 0 ==> (r matches Some(ob) && ({
                let stored = self.obligations@[pair_key_index(self.obligations@, user_address)].1;
                ob.lending_market == stored.lending_market && ob.owner == stored.owner
                    && ob.deposits@ == stored.deposits@ && ob.borrows@ == stored.borrows@
                    && ob.deposited_value == stored.deposited_value && ob.borrowed_value
                    == stored.borrowed_value && ob.allowed_borrow_value
                    == stored.allowed_borrow_value && ob.unhealthy_borrow_value
                    == stored.unhealthy_borrow_value && ob.last_update == stored.last_update
            })),
    {
        match find_pair_index(&self.obligations, user_address) {
            Some(i) => Some(copy_obligation(&self.obligations[i].1)),
            None => None,
        }
    }

    /// The market owner.
    pub fn get_owner(&self) -> (r: Option<Address>)
        ensures
            r == Some(self.owner),
    {
        Some(self.owner)
    }

    /// Number of reserves created so far.
    pub fn get_reserve_count(&self) -> (r: u64)
        ensures
            r == self.reserve_count,
    {
        self.reserve_count
    }

    /// Replace a reserve's risk configuration; only the market owner may,
    /// and only for a reserve of this market.
    pub fn modify_reserve_config(
        &mut self,
        caller: Address,
        reserve_key: Address,
        new_config: ReserveConfig,
    ) -> (r: Result<(), LendingError>)
        ensures
            !new_config.is_valid() ==> (r matches Err(e) && e == LendingError::InvalidConfig
                && *final(self) == *old(self)),
            new_config.is_valid() && caller != old(self).owner ==> (r matches Err(e) && e
                == LendingError::InvalidMarketOwner && *final(self) == *old(self)),
            new_config.is_valid() && caller == old(self).owner && pair_key_index(
                old(self).reserves@,
                reserve_key,
            ) == -1 ==> (r matches Err(e) && e == LendingError::InvalidAccountInput && *final(self)
                == *old(self)),
            new_config.is_valid() && caller == old(self).owner && pair_key_index(
                old(self).reserves@,
                reserve_key,
            ) >= 0 && old(self).reserves@[pair_key_index(
                old(self).reserves@,
                reserve_key,
            )].1.lending_market != old(self).self_address ==> (r matches Err(e) && e
                == LendingError::InvalidAccountInput && *final(self) == *old(self)),
            new_config.is_valid() && caller == old(self).owner && pair_key_index(
                old(self).reserves@,
                reserve_key,
            ) >= 0 && old(self).reserves@[pair_key_index(
                old(self).reserves@,
                reserve_key,
            )].1.lending_market == old(self).self_address ==> (r is Ok && final(self).reserves@
                == old(self).reserves@.update(
                pair_key_index(old(self).reserves@, reserve_key),
                (
                    reserve_key,
                    (Reserve {
                        config: new_config,
                        ..old(self).reserves@[pair_key_index(old(self).reserves@, reserve_key)].1
                    }),
                ),
            ) && *final(self) == (NovaLending { reserves: final(self).reserves, ..*old(self) })),
    {
        new_config.validate()?;
        if caller != self.owner {
            return Err(LendingError::InvalidMarketOwner);
        }
        let idx = match find_pair_index(&self.reserves, reserve_key) {
            Some(i) => i,
            None => {
                return Err(LendingError::InvalidAccountInput);
            },
        };
        let mut reserve = self.reserves[idx].1;
        if reserve.lending_market != self.self_address {
            return Err(LendingError::InvalidAccountInput);
        }
        reserve.config = new_config;
        self.reserves.set(idx, (reserve_key, reserve));
        Ok(())
    }
}

/// Result of revaluing the collateral entries in order: the updated entries
/// and the accumulated deposited, allowed-borrow and unhealthy-borrow
/// values, or the first failure.  Each entry requires its reserve to exist
/// and be fresh; every sum and product is checked.
pub open spec fn spec_refresh_deposits(
    reserves: Seq<(Address, Reserve)>,
    deposits: Seq<Collateral>,
    clock: u64,
    deposited: nat,
    allowed: nat,
    unhealthy: nat,
) -> Result<(Seq<Collateral>, nat, nat, nat), LendingError>
    decreases deposits.len(),
{
    if deposits.len() == 0 {
        Ok((deposits, deposited, allowed, unhealthy))
    } else {
        let c = deposits[0];
        let ri = pair_key_index(reserves, c.deposit_reserve);
        if ri == -1 {
            Err(LendingError::InvalidAccountInput)
        } else {
            let rsv = reserves[ri].1;
            if rsv.last_update.is_stale_spec(clock) {
                Err(LendingError::ReserveStale)
            } else {
                match spec_market_value(
                    c.deposited_amount.as_nat(),
                    rsv.liquidity.market_price.val(),
                    rsv.liquidity.mint_decimals,
                ) {
                    Err(e) => Err(e),
                    Ok(mv) => {
                        let ltv = (rsv.config.loan_to_value_ratio as nat) * (
                        PERCENT_SCALER as nat);
                        let thr = (rsv.config.liquidation_threshold as nat) * (
                        PERCENT_SCALER as nat);
                        if deposited + mv >= u256_limit() {
                            Err(LendingError::MathOverflow)
                        } else if !wad_mul_ok(mv, ltv) {
                            Err(LendingError::MathOverflow)
                        } else if allowed + wad_mul(mv, ltv) >= u256_limit() {
                            Err(LendingError::MathOverflow)
                        } else if !wad_mul_ok(mv, thr) {
                            Err(LendingError::MathOverflow)
                        } else if unhealthy + wad_mul(mv, thr) >= u256_limit() {
                            Err(LendingError::MathOverflow)
                        } else {
                            match spec_refresh_deposits(
                                reserves,
                                deposits.drop_first(),
                                clock,
                                (deposited + mv) as nat,
                                (allowed + wad_mul(mv, ltv)) as nat,
                                (unhealthy + wad_mul(mv, thr)) as nat,
                            ) {
                                Err(e) => Err(e),
                                Ok(rest) => Ok(
                                    (
                                        seq![
                                            (Collateral {
                                                market_value: Decimal(
                                                    crate::math::uint256::u256_of_nat(mv),
                                                ),
                                                ..c
                                            }),
                                        ].add(rest.0),
                                        rest.1,
                                        rest.2,
                                        rest.3,
                                    ),
                                ),
                            }
                        }
                    },
                }
            }
        }
    }
}

/// Result of accruing interest on and revaluing the borrow entries in
/// order: the updated entries and the accumulated borrowed value, or the
/// first failure.
pub open spec fn spec_refresh_borrows(
    reserves: Seq<(Address, Reserve)>,
    borrows: Seq<Liquidity>,
    clock: u64,
    borrowed: nat,
) -> Result<(Seq<Liquidity>, nat), LendingError>
    decreases borrows.len(),
{
    if borrows.len() == 0 {
        Ok((borrows, borrowed))
    } else {
        let l = borrows[0];
        let ri = pair_key_index(reserves, l.borrow_reserve);
        if ri == -1 {
            Err(LendingError::InvalidAccountInput)
        } else {
            let rsv = reserves[ri].1;
            if rsv.last_update.is_stale_spec(clock) {
                Err(LendingError::ReserveStale)
            } else {
                let index = rsv.liquidity.cumulative_borrow_rate_wads.val();
                let snapshot = l.cumulative_borrow_rate_wads.val();
                if index < snapshot {
                    Err(LendingError::NegativeInterestRate)
                } else if !wad_div_ok(index, snapshot) {
                    Err(LendingError::MathOverflow)
                } else if !wad_mul_ok(l.borrowed_amount_wads.val(), wad_div(index, snapshot)) {
                    Err(LendingError::MathOverflow)
                } else {
                    let grown = wad_mul(l.borrowed_amount_wads.val(), wad_div(index, snapshot));
                    if grown / (WAD as nat) > u64::MAX {
                        Err(LendingError::MathOverflow)
                    } else {
                        match spec_market_value(
                            grown / (WAD as nat),
                            rsv.liquidity.market_price.val(),
                            rsv.liquidity.mint_decimals,
                        ) {
                            Err(e) => Err(e),
                            Ok(mv) => {
                                if borrowed + mv >= u256_limit() {
                                    Err(LendingError::MathOverflow)
                                } else {
                                    match spec_refresh_borrows(
                                        reserves,
                                        borrows.drop_first(),
                                        clock,
                                        (borrowed + mv) as nat,
                                    ) {
                                        Err(e) => Err(e),
                                        Ok(rest) => Ok(
                                            (
                                                seq![
                                                    (Liquidity {
                                                        borrowed_amount_wads: Decimal(
                                                            crate::math::uint256::u256_of_nat(grown),
                                                        ),
                                                        market_value: Decimal(
                                                            crate::math::uint256::u256_of_nat(mv),
                                                        ),
                                                        cumulative_borrow_rate_wads: rsv.liquidity.cumulative_borrow_rate_wads,
                                                        ..l
                                                    }),
                                                ].add(rest.0),
                                                rest.1,
                                            ),
                                        ),
                                    }
                                }
                            },
                        }
                    }
                }
            }
        }
    }
}

impl NovaLending {
    /// Recompute an obligation's aggregate valuations from its entries and
    /// the current prices of every referenced reserve, and mark it fresh at
    /// `clock`.  Every referenced reserve must exist and be fresh.
    #[verifier::loop_isolation(false)]
    #[verifier::rlimit(60)]
    pub fn refresh_obligation(&mut self, user_address: Address, clock: u64) -> (r: Result<
        (),
        LendingError,
    >)
        requires
            pair_key_index(old(self).obligations@, user_address) >= 0 ==> forall|k: int|
                0 <= k < old(self).obligations@[pair_key_index(
                    old(self).obligations@,
                    user_address,
                )].1.deposits@.len() ==> old(self).obligations@[pair_key_index(
                    old(self).obligations@,
                    user_address,
                )].1.deposits@[k].deposited_amount.as_nat() < u128_limit(),
        ensures
            pair_key_index(old(self).obligations@, user_address) == -1 ==> (r matches Err(e)
                && e == LendingError::InvalidObligationOwner && *final(self) == *old(self)),
            pair_key_index(old(self).obligations@, user_address) >= 0 ==> ({
                let oi = pair_key_index(old(self).obligations@, user_address);
                let ob = old(self).obligations@[oi].1;
                match spec_refresh_deposits(old(self).reserves@, ob.deposits@, clock, 0, 0, 0) {
                    Err(e) => r matches Err(e2) && e2 == e && *final(self) == *old(self),
                    Ok(deps) => match spec_refresh_borrows(
                        old(self).reserves@,
                        ob.borrows@,
                        clock,
                        0,
                    ) {
                        Err(e) => r matches Err(e2) && e2 == e && *final(self) == *old(self),
                        Ok(bors) => r is Ok && final(self).obligations@ == old(
                            self,
                        ).obligations@.update(oi, (user_address, final(self).obligations@[oi].1))
                            && ({
                            let nob = final(self).obligations@[oi].1;
                            nob.lending_market == ob.lending_market && nob.owner == ob.owner
                                && nob.deposits@ == deps.0 && nob.borrows@ == bors.0
                                && nob.deposited_value.val() == deps.1
                                && nob.allowed_borrow_value.val() == deps.2
                                && nob.unhealthy_borrow_value.val() == deps.3
                                && nob.borrowed_value.val() == bors.1 && nob.last_update == (
                            LastUpdate { slot: clock, stale: false })
                        }) && *final(self) == (NovaLending {
                            obligations: final(self).obligations,
                            ..*old(self)
                        }),
                    },
                }
            }),
    {
        let oidx = match find_pair_index(&self.obligations, user_address) {
            Some(i) => i,
            None => {
                return Err(LendingError::InvalidObligationOwner);
            },
        };
        let ghost full_deposits = spec_refresh_deposits(
            self.reserves@,
            self.obligations@[oidx as int].1.deposits@,
            clock,
            0,
            0,
            0,
        );
        let ghost full_borrows = spec_refresh_borrows(
            self.reserves@,
            self.obligations@[oidx as int].1.borrows@,
            clock,
            0,
        );
        let mut deposited_value = Decimal::zero();
        let mut borrowed_value = Decimal::zero();
        let mut allowed_borrow_value = Decimal::zero();
        let mut unhealthy_borrow_value = Decimal::zero();
        let mut new_deposits: Vec<Collateral> = Vec::new();
        let dn = self.obligations[oidx].1.deposits.len();
        proof {
            assert(self.obligations@[oidx as int].1.deposits@.skip(0)
                =~= self.obligations@[oidx as int].1.deposits@);
            if full_deposits is Ok {
                let v = full_deposits->Ok_0;
                assert(Seq::<Collateral>::empty() + v.0 =~= v.0);
            }
        }
        let mut k: usize = 0;
        while k < dn
            invariant
                k <= dn,
                spec_refresh_deposits(
                    self.reserves@,
                    self.obligations@[oidx as int].1.deposits@.skip(k as int),
                    clock,
                    deposited_value.val(),
                    allowed_borrow_value.val(),
                    unhealthy_borrow_value.val(),
                ) matches Ok(rest) ==> (full_deposits matches Ok(v) && v.0 == new_deposits@
                    + rest.0 && v.1 == rest.1 && v.2 == rest.2 && v.3 == rest.3),
                spec_refresh_deposits(
                    self.reserves@,
                    self.obligations@[oidx as int].1.deposits@.skip(k as int),
                    clock,
                    deposited_value.val(),
                    allowed_borrow_value.val(),
                    unhealthy_borrow_value.val(),
                ) matches Err(e) ==> full_deposits == Err::<
                    (Seq<Collateral>, nat, nat, nat),
                    LendingError,
                >(e),
            decreases dn - k,
        {
            let ghost pre_tail = self.obligations@[oidx as int].1.deposits@.skip(k as int);
            proof {
                assert(pre_tail[0] == self.obligations@[oidx as int].1.deposits@[k as int]);
                assert(pre_tail.drop_first() =~= self.obligations@[oidx as int].1.deposits@.skip(
                    k as int + 1,
                ));
            }
            let collateral = self.obligations[oidx].1.deposits[k];
            let ridx = match find_pair_index(&self.reserves, collateral.deposit_reserve) {
                Some(i) => i,
                None => {
                    return Err(LendingError::InvalidAccountInput);
                },
            };
            let reserve = self.reserves[ridx].1;
            if reserve.last_update.is_stale(clock) {
                return Err(LendingError::ReserveStale);
            }
            let market_value = calculate_market_value(
                collateral.deposited_amount,
                reserve.liquidity.market_price,
                reserve.liquidity.mint_decimals,
            )?;
            let loan_to_value_rate = Rate::from_percent(reserve.config.loan_to_value_ratio);
            let liquidation_threshold_rate = Rate::from_percent(
                reserve.config.liquidation_threshold,
            );
            deposited_value = deposited_value.try_add(market_value)?;
            allowed_borrow_value = allowed_borrow_value.try_add(
                market_value.try_mul(loan_to_value_rate)?,
            )?;
            unhealthy_borrow_value = unhealthy_borrow_value.try_add(
                market_value.try_mul(liquidation_threshold_rate)?,
            )?;
            let updated = Collateral { market_value, ..collateral };
            proof {
                crate::math::uint256::lemma_u256_of_nat(market_value.val());
                market_value.0.lemma_cmp(crate::math::uint256::u256_of_nat(market_value.val()));
                let next_tail = spec_refresh_deposits(
                    self.reserves@,
                    self.obligations@[oidx as int].1.deposits@.skip(k as int + 1),
                    clock,
                    deposited_value.val(),
                    allowed_borrow_value.val(),
                    unhealthy_borrow_value.val(),
                );
                if next_tail is Ok {
                    let t = next_tail->Ok_0.0;
                    assert(new_deposits@ + (seq![updated] + t) =~= new_deposits@.push(updated)
                        + t);
                }
            }
            new_deposits.push(updated);
            k += 1;
        }
        proof {
            assert(self.obligations@[oidx as int].1.deposits@.skip(dn as int) =~= Seq::<
                Collateral,
            >::empty());
            if full_deposits is Ok {
                assert(new_deposits@ + Seq::<Collateral>::empty() =~= new_deposits@);
            }
        }
        let mut new_borrows: Vec<Liquidity> = Vec::new();
        let bn = self.obligations[oidx].1.borrows.len();
        proof {
            assert(self.obligations@[oidx as int].1.borrows@.skip(0)
                =~= self.obligations@[oidx as int].1.borrows@);
            if full_borrows is Ok {
                let v = full_borrows->Ok_0;
                assert(Seq::<Liquidity>::empty() + v.0 =~= v.0);
            }
        }
        let mut j: usize = 0;
        while j < bn
            invariant
                j <= bn,
                spec_refresh_borrows(
                    self.reserves@,
                    self.obligations@[oidx as int].1.borrows@.skip(j as int),
                    clock,
                    borrowed_value.val(),
                ) matches Ok(rest) ==> (full_borrows matches Ok(v) && v.0 == new_borrows@ + rest.0
                    && v.1 == rest.1),
                spec_refresh_borrows(
                    self.reserves@,
                    self.obligations@[oidx as int].1.borrows@.skip(j as int),
                    clock,
                    borrowed_value.val(),
                ) matches Err(e) ==> full_borrows == Err::<(Seq<Liquidity>, nat), LendingError>(e),
            decreases bn - j,
        {
            let ghost pre_tail = self.obligations@[oidx as int].1.borrows@.skip(j as int);
            proof {
                assert(pre_tail[0] == self.obligations@[oidx as int].1.borrows@[j as int]);
                assert(pre_tail.drop_first() =~= self.obligations@[oidx as int].1.borrows@.skip(
                    j as int + 1,
                ));
            }
            let mut liquidity = self.obligations[oidx].1.borrows[j];
            let ridx = match find_pair_index(&self.reserves, liquidity.borrow_reserve) {
                Some(i) => i,
                None => {
                    return Err(LendingError::InvalidAccountInput);
                },
            };
            let reserve = self.reserves[ridx].1;
            if reserve.last_update.is_stale(clock) {
                return Err(LendingError::ReserveStale);
            }
            liquidity.accrue_interest(reserve.liquidity.cumulative_borrow_rate_wads)?;
            let floored = liquidity.borrowed_amount_wads.try_floor_u64()?;
            let market_value = calculate_market_value(
                Uint256::from_u64(floored),
                reserve.liquidity.market_price,
                reserve.liquidity.mint_decimals,
            )?;
            liquidity.market_value = market_value;
            borrowed_value = borrowed_value.try_add(market_value)?;
            proof {
                crate::math::uint256::lemma_u256_of_nat(liquidity.borrowed_amount_wads.val());
                liquidity.borrowed_amount_wads.0.lemma_cmp(
                    crate::math::uint256::u256_of_nat(liquidity.borrowed_amount_wads.val()),
                );
                crate::math::uint256::lemma_u256_of_nat(market_value.val());
                market_value.0.lemma_cmp(
                    crate::math::uint256::u256_of_nat(market_value.val()),
                );
                let next_tail = spec_refresh_borrows(
                    self.reserves@,
                    self.obligations@[oidx as int].1.borrows@.skip(j as int + 1),
                    clock,
                    borrowed_value.val(),
                );
                if next_tail is Ok {
                    let t = next_tail->Ok_0.0;
                    assert(new_borrows@ + (seq![liquidity] + t) =~= new_borrows@.push(liquidity)
                        + t);
                }
            }
            new_borrows.push(liquidity);
            j += 1;
        }
        proof {
            assert(self.obligations@[oidx as int].1.borrows@.skip(bn as int) =~= Seq::<
                Liquidity,
            >::empty());
            if full_borrows is Ok {
                assert(new_borrows@ + Seq::<Liquidity>::empty() =~= new_borrows@);
            }
        }
        let stored = &self.obligations[oidx].1;
        let new_obligation = Obligation {
            lending_market: stored.lending_market,
            owner: stored.owner,
            deposits: new_deposits,
            borrows: new_borrows,
            deposited_value,
            borrowed_value,
            allowed_borrow_value,
            unhealthy_borrow_value,
            last_update: LastUpdate { slot: clock, stale: false },
        };
        self.obligations.set(oidx, (user_address, new_obligation));
        Ok(())
    }
}

impl NovaLending {
    /// Deposit collateral tokens into an obligation against a fresh reserve
    /// whose collateral counts toward borrow capacity.
    pub fn deposit_obligation_collateral(
        &mut self,
        caller: Address,
        reserve_key: Address,
        collateral_amount: Uint256,
        clock: u64,
    ) -> (r: Result<(), LendingError>)
        ensures
            collateral_amount.as_nat() == 0 ==> (r matches Err(e) && e
                == LendingError::InvalidAmount && *final(self) == *old(self)),
            collateral_amount.as_nat() != 0 && pair_key_index(old(self).obligations@, caller)
                == -1 ==> (r matches Err(e) && e == LendingError::InvalidObligationOwner && *final(self) == *old(self)),
            collateral_amount.as_nat() != 0 && pair_key_index(old(self).obligations@, caller)
                >= 0 && pair_key_index(old(self).reserves@, reserve_key) == -1 ==> (r matches
                Err(e) && e == LendingError::InvalidAccountInput && *final(self) == *old(self)),
            collateral_amount.as_nat() != 0 && pair_key_index(old(self).obligations@, caller)
                >= 0 && pair_key_index(old(self).reserves@, reserve_key) >= 0 ==> ({
                let oi = pair_key_index(old(self).obligations@, caller);
                let ri = pair_key_index(old(self).reserves@, reserve_key);
                let ob = old(self).obligations@[oi].1;
                let rsv = old(self).reserves@[ri].1;
                if rsv.last_update.is_stale_spec(clock) {
                    r matches Err(e) && e == LendingError::ReserveStale && *final(self) == *old(self)
                } else if rsv.config.loan_to_value_ratio == 0 {
                    r matches Err(e) && e == LendingError::ReserveCollateralDisabled && *final(self) == *old(self)
                } else {
                    let di = deposit_index(ob.deposits@, reserve_key);
                    if di >= 0 && ob.deposits@[di].deposited_amount.as_nat()
                        + collateral_amount.as_nat() >= u256_limit() {
                        r matches Err(e) && e == LendingError::MathOverflow && *final(self)
                            == *old(self)
                    } else {
                        r is Ok && final(self).obligations@ == old(self).obligations@.update(
                            oi,
                            (caller, final(self).obligations@[oi].1),
                        ) && ({
                            let nob = final(self).obligations@[oi].1;
                            nob.lending_market == ob.lending_market && nob.owner == ob.owner
                                && nob.borrows@ == ob.borrows@ && nob.deposited_value
                                == ob.deposited_value && nob.borrowed_value == ob.borrowed_value
                                && nob.allowed_borrow_value == ob.allowed_borrow_value
                                && nob.unhealthy_borrow_value == ob.unhealthy_borrow_value
                                && nob.last_update == (LastUpdate {
                                stale: true,
                                ..ob.last_update
                            }) && (if di >= 0 {
                                nob.deposits@ == ob.deposits@.update(di, (Collateral {
                                    deposited_amount: nob.deposits@[di].deposited_amount,
                                    ..ob.deposits@[di]
                                })) && nob.deposits@[di].deposited_amount.as_nat()
                                    == ob.deposits@[di].deposited_amount.as_nat()
                                    + collateral_amount.as_nat()
                            } else {
                                nob.deposits@ == ob.deposits@.push((Collateral {
                                    deposit_reserve: reserve_key,
                                    deposited_amount: collateral_amount,
                                    market_value: Decimal((Uint256 { hi: 0, lo: 0 })),
                                }))
                            })
                        }) && *final(self) == (NovaLending {
                            obligations: final(self).obligations,
                            ..*old(self)
                        })
                    }
                }
            }),
    {
        if collateral_amount.is_zero() {
            return Err(LendingError::InvalidAmount);
        }
        let oidx = match find_pair_index(&self.obligations, caller) {
            Some(i) => i,
            None => {
                return Err(LendingError::InvalidObligationOwner);
            },
        };
        let ridx = match find_pair_index(&self.reserves, reserve_key) {
            Some(i) => i,
            None => {
                return Err(LendingError::InvalidAccountInput);
            },
        };
        let reserve = self.reserves[ridx].1;
        if reserve.last_update.is_stale(clock) {
            return Err(LendingError::ReserveStale);
        }
        if reserve.config.loan_to_value_ratio == 0 {
            return Err(LendingError::ReserveCollateralDisabled);
        }
        let mut obligation = copy_obligation(&self.obligations[oidx].1);
        proof {
            lemma_deposit_index(obligation.deposits@, reserve_key);
        }
        let di = obligation.find_or_add_collateral_to_deposits(reserve_key)?;
        let mut entry = obligation.deposits[di];
        proof {
            collateral_amount.lemma_as_nat_bound();
        }
        entry.deposit(collateral_amount)?;
        obligation.deposits.set(di, entry);
        proof {
            let ob0 = old(self).obligations@[oidx as int].1;
            if deposit_index(ob0.deposits@, reserve_key) == -1 {
                entry.deposited_amount.lemma_cmp(collateral_amount);
                assert(obligation.deposits@ =~= ob0.deposits@.push(entry));
            }
        }
        obligation.last_update.mark_stale();
        self.obligations.set(oidx, (caller, obligation));
        Ok(())
    }
}

/// The exact amount a withdrawal may take from a collateral entry when the
/// obligation has borrows: bounded by the headroom the entry's reserve
/// grants, proportionally for the sentinel request, or the failure.
pub open spec fn spec_calculate_withdraw_amount(
    ob: Obligation,
    ltv: u8,
    c: Collateral,
    amount: nat,
) -> Result<nat, LendingError> {
    if ob.deposited_value.val() == 0 {
        Err(LendingError::ObligationDepositsZero)
    } else {
        let rate = (ltv as nat) * (PERCENT_SCALER as nat);
        if ob.borrows@.len() > 0 && !wad_mul_ok(ob.deposited_value.val(), rate) {
            Err(LendingError::MathOverflow)
        } else {
            let mwv = if ob.borrows@.len() == 0 {
                ob.deposited_value.val()
            } else if wad_mul(ob.deposited_value.val(), rate) <= ob.borrowed_value.val() {
                0
            } else {
                (wad_mul(ob.deposited_value.val(), rate) - ob.borrowed_value.val()) as nat
            };
            if mwv == 0 {
                Err(LendingError::WithdrawTooLarge)
            } else if amount == u256_limit() - 1 {
                let withdraw_value = if mwv <= c.market_value.val() {
                    mwv
                } else {
                    c.market_value.val()
                };
                if !wad_div_ok(withdraw_value, c.market_value.val()) {
                    Err(LendingError::MathOverflow)
                } else {
                    let pct = wad_div(withdraw_value, c.market_value.val());
                    if !wad_mul_ok(pct, c.deposited_amount.as_nat() * (WAD as nat)) {
                        Err(LendingError::MathOverflow)
                    } else {
                        let scaled = wad_mul(pct, c.deposited_amount.as_nat() * (WAD as nat));
                        if scaled / (WAD as nat) > u64::MAX {
                            Err(LendingError::MathOverflow)
                        } else {
                            let wa = if scaled / (WAD as nat) <= c.deposited_amount.as_nat() {
                                scaled / (WAD as nat)
                            } else {
                                c.deposited_amount.as_nat()
                            };
                            if wa == 0 {
                                Err(LendingError::WithdrawTooSmall)
                            } else {
                                Ok(wa)
                            }
                        }
                    }
                }
            } else {
                let wa = if amount <= c.deposited_amount.as_nat() {
                    amount
                } else {
                    c.deposited_amount.as_nat()
                };
                if !wad_div_ok(wa * (WAD as nat), c.deposited_amount.as_nat() * (WAD as nat)) {
                    Err(LendingError::MathOverflow)
                } else {
                    let pct = wad_div(wa * (WAD as nat), c.deposited_amount.as_nat() * (
                    WAD as nat));
                    if !wad_mul_ok(c.market_value.val(), pct) {
                        Err(LendingError::MathOverflow)
                    } else if wad_mul(c.market_value.val(), pct) > mwv {
                        Err(LendingError::WithdrawTooLarge)
                    } else if wa == 0 {
                        Err(LendingError::WithdrawTooSmall)
                    } else {
                        Ok(wa)
                    }
                }
            }
        }
    }
}

impl NovaLending {
    /// How much collateral a withdrawal may take when the obligation has
    /// borrows.
    fn calculate_withdraw_amount(
        &self,
        obligation: &Obligation,
        reserve: &Reserve,
        collateral: &Collateral,
        collateral_amount: Uint256,
    ) -> (r: Result<Uint256, LendingError>)
        requires
            collateral.deposited_amount.as_nat() < u128_limit(),
            collateral_amount.as_nat() == u256_limit() - 1 ==> collateral.deposited_amount.as_nat()
                <= u64::MAX,
        ensures
            spec_calculate_withdraw_amount(
                *obligation,
                reserve.config.loan_to_value_ratio,
                *collateral,
                collateral_amount.as_nat(),
            ) matches Ok(v) ==> (r matches Ok(w) && w.as_nat() == v),
            spec_calculate_withdraw_amount(
                *obligation,
                reserve.config.loan_to_value_ratio,
                *collateral,
                collateral_amount.as_nat(),
            ) matches Err(e) ==> (r matches Err(e2) && e2 == e),
    {
        if obligation.deposited_value.is_zero() {
            return Err(LendingError::ObligationDepositsZero);
        }
        let max_withdraw_value = obligation.max_withdraw_value(
            Rate::from_percent(reserve.config.loan_to_value_ratio),
        )?;
        if max_withdraw_value.is_zero() {
            return Err(LendingError::WithdrawTooLarge);
        }
        proof {
            let top = Uint256 { hi: u128::MAX, lo: u128::MAX };
            collateral_amount.lemma_cmp(top);
            top.lemma_as_nat_bound();
        }
        let withdraw_amount = if collateral_amount == Uint256::max_value() {
            let withdraw_value = max_withdraw_value.min(collateral.market_value);
            let withdraw_pct = withdraw_value.try_div(collateral.market_value)?;
            let scaled = withdraw_pct.try_mul(
                Decimal::from_u128(collateral.deposited_amount.as_u128()),
            )?;
            let floored = scaled.try_floor_u64()?;
            let capped = if floored <= collateral.deposited_amount.as_u64() {
                floored
            } else {
                collateral.deposited_amount.as_u64()
            };
            Uint256::from_u64(capped)
        } else {
            let withdraw_amount = collateral_amount.min(collateral.deposited_amount);
            let withdraw_pct = Decimal::from_u128(withdraw_amount.as_u128()).try_div(
                Decimal::from_u128(collateral.deposited_amount.as_u128()),
            )?;
            let withdraw_value = collateral.market_value.try_mul(withdraw_pct)?;
            if withdraw_value.gt(&max_withdraw_value) {
                return Err(LendingError::WithdrawTooLarge);
            }
            withdraw_amount
        };
        if withdraw_amount.is_zero() {
            return Err(LendingError::WithdrawTooSmall);
        }
        Ok(withdraw_amount)
    }

    /// Withdraw collateral from an obligation: freely up to the deposit when
    /// nothing is borrowed, else bounded by the health headroom.
    pub fn withdraw_obligation_collateral(
        &mut self,
        caller: Address,
        reserve_key: Address,
        collateral_amount: Uint256,
        clock: u64,
    ) -> (r: Result<(), LendingError>)
        requires
            ({
                let oi = pair_key_index(old(self).obligations@, caller);
                let ri = pair_key_index(old(self).reserves@, reserve_key);
                oi >= 0 && ri >= 0 ==> ({
                    let ob = old(self).obligations@[oi].1;
                    let ci = deposit_index(ob.deposits@, reserve_key);
                    ci >= 0 && ob.borrows@.len() > 0 ==> (
                    ob.deposits@[ci].deposited_amount.as_nat() < u128_limit() && (
                    collateral_amount.as_nat() == u256_limit() - 1
                        ==> ob.deposits@[ci].deposited_amount.as_nat() <= u64::MAX))
                })
            }),
        ensures
            collateral_amount.as_nat() == 0 ==> (r matches Err(e) && e
                == LendingError::InvalidAmount && *final(self) == *old(self)),
            collateral_amount.as_nat() != 0 && pair_key_index(old(self).obligations@, caller)
                == -1 ==> (r matches Err(e) && e == LendingError::InvalidObligationOwner && *final(self) == *old(self)),
            collateral_amount.as_nat() != 0 && pair_key_index(old(self).obligations@, caller)
                >= 0 && pair_key_index(old(self).reserves@, reserve_key) == -1 ==> (r matches
                Err(e) && e == LendingError::InvalidAccountInput && *final(self) == *old(self)),
            collateral_amount.as_nat() != 0 && pair_key_index(old(self).obligations@, caller)
                >= 0 && pair_key_index(old(self).reserves@, reserve_key) >= 0 ==> ({
                let oi = pair_key_index(old(self).obligations@, caller);
                let ri = pair_key_index(old(self).reserves@, reserve_key);
                let ob = old(self).obligations@[oi].1;
                let rsv = old(self).reserves@[ri].1;
                let ci = deposit_index(ob.deposits@, reserve_key);
                if rsv.last_update.is_stale_spec(clock) || ob.last_update.is_stale_spec(clock) {
                    r matches Err(e) && e == LendingError::ReserveStale && *final(self) == *old(self)
                } else if ci == -1 || ob.deposits@[ci].deposited_amount.as_nat() == 0 {
                    r matches Err(e) && e == LendingError::ObligationCollateralEmpty && *final(self) == *old(self)
                } else {
                    let wa_res: Result<nat, LendingError> = if ob.borrows@.len() == 0 {
                        if collateral_amount.as_nat() == u256_limit() - 1 {
                            Ok(ob.deposits@[ci].deposited_amount.as_nat())
                        } else if ob.deposits@[ci].deposited_amount.as_nat()
                            <= collateral_amount.as_nat() {
                            Ok(ob.deposits@[ci].deposited_amount.as_nat())
                        } else {
                            Ok(collateral_amount.as_nat())
                        }
                    } else {
                        spec_calculate_withdraw_amount(
                            ob,
                            rsv.config.loan_to_value_ratio,
                            ob.deposits@[ci],
                            collateral_amount.as_nat(),
                        )
                    };
                    match wa_res {
                        Err(e) => r matches Err(e2) && e2 == e && *final(self) == *old(self),
                        Ok(wa) => r is Ok && final(self).obligations@ == old(
                            self,
                        ).obligations@.update(oi, (caller, final(self).obligations@[oi].1)) && ({
                            let nob = final(self).obligations@[oi].1;
                            nob.lending_market == ob.lending_market && nob.owner == ob.owner
                                && nob.borrows@ == ob.borrows@ && nob.deposited_value
                                == ob.deposited_value && nob.borrowed_value == ob.borrowed_value
                                && nob.allowed_borrow_value == ob.allowed_borrow_value
                                && nob.unhealthy_borrow_value == ob.unhealthy_borrow_value
                                && nob.last_update == (LastUpdate {
                                stale: true,
                                ..ob.last_update
                            }) && (if wa == ob.deposits@[ci].deposited_amount.as_nat() {
                                nob.deposits@ == ob.deposits@.remove(ci)
                            } else {
                                nob.deposits@ == ob.deposits@.update(ci, (Collateral {
                                    deposited_amount: nob.deposits@[ci].deposited_amount,
                                    ..ob.deposits@[ci]
                                })) && nob.deposits@[ci].deposited_amount.as_nat()
                                    == ob.deposits@[ci].deposited_amount.as_nat() - wa
                            })
                        }) && *final(self) == (NovaLending {
                            obligations: final(self).obligations,
                            ..*old(self)
                        }),
                    }
                }
            }),
    {
        if collateral_amount.is_zero() {
            return Err(LendingError::InvalidAmount);
        }
        let oidx = match find_pair_index(&self.obligations, caller) {
            Some(i) => i,
            None => {
                return Err(LendingError::InvalidObligationOwner);
            },
        };
        let ridx = match find_pair_index(&self.reserves, reserve_key) {
            Some(i) => i,
            None => {
                return Err(LendingError::InvalidAccountInput);
            },
        };
        let reserve = self.reserves[ridx].1;
        let mut obligation = copy_obligation(&self.obligations[oidx].1);
        if reserve.last_update.is_stale(clock) || obligation.last_update.is_stale(clock) {
            return Err(LendingError::ReserveStale);
        }
        proof {
            lemma_deposit_index(obligation.deposits@, reserve_key);
        }
        let (collateral, collateral_index) = match obligation.find_collateral_in_deposits(
            reserve_key,
        ) {
            Ok(p) => p,
            Err(_e) => {
                return Err(LendingError::ObligationCollateralEmpty);
            },
        };
        if collateral.deposited_amount.is_zero() {
            return Err(LendingError::ObligationCollateralEmpty);
        }
        proof {
            let top = Uint256 { hi: u128::MAX, lo: u128::MAX };
            collateral_amount.lemma_cmp(top);
            top.lemma_as_nat_bound();
        }
        let withdraw_amount = if obligation.borrows.len() == 0 {
            if collateral_amount == Uint256::max_value() {
                collateral.deposited_amount
            } else {
                collateral.deposited_amount.min(collateral_amount)
            }
        } else {
            self.calculate_withdraw_amount(&obligation, &reserve, &collateral, collateral_amount)?
        };
        proof {
            withdraw_amount.lemma_cmp(collateral.deposited_amount);
        }
        obligation.withdraw(withdraw_amount, collateral_index)?;
        obligation.last_update.mark_stale();
        self.obligations.set(oidx, (caller, obligation));
        Ok(())
    }
}

impl NovaLending {
    /// Borrow liquidity against an obligation's collateral: bounded by the
    /// unused borrow capacity, minus the origination fee.
    pub fn borrow_obligation_liquidity(
        &mut self,
        caller: Address,
        reserve_key: Address,
        liquidity_amount: Uint256,
        slippage_limit: Uint256,
        clock: u64,
    ) -> (r: Result<(), LendingError>)
        ensures
            liquidity_amount.as_nat() == 0 ==> (r matches Err(e) && e
                == LendingError::InvalidAmount && *final(self) == *old(self)),
            liquidity_amount.as_nat() != 0 && pair_key_index(old(self).obligations@, caller)
                == -1 ==> (r matches Err(e) && e == LendingError::InvalidObligationOwner && *final(self) == *old(self)),
            liquidity_amount.as_nat() != 0 && pair_key_index(old(self).obligations@, caller)
                >= 0 && pair_key_index(old(self).reserves@, reserve_key) == -1 ==> (r matches
                Err(e) && e == LendingError::InvalidAccountInput && *final(self) == *old(self)),
            liquidity_amount.as_nat() != 0 && pair_key_index(old(self).obligations@, caller)
                >= 0 && pair_key_index(old(self).reserves@, reserve_key) >= 0 ==> ({
                let oi = pair_key_index(old(self).obligations@, caller);
                let ri = pair_key_index(old(self).reserves@, reserve_key);
                let ob = old(self).obligations@[oi].1;
                let rsv = old(self).reserves@[ri].1;
                if rsv.last_update.is_stale_spec(clock) || ob.last_update.is_stale_spec(clock) {
                    r matches Err(e) && e == LendingError::ReserveStale && *final(self) == *old(self)
                } else if ob.deposits@.len() == 0 {
                    r matches Err(e) && e == LendingError::ObligationDepositsEmpty && *final(self) == *old(self)
                } else {
                    let remaining = if ob.borrowed_value.val() >= ob.allowed_borrow_value.val() {
                        0
                    } else {
                        (ob.allowed_borrow_value.val() - ob.borrowed_value.val()) as nat
                    };
                    if remaining == 0 {
                        r matches Err(e) && e == LendingError::BorrowTooLarge && *final(self)
                            == *old(self)
                    } else {
                        match spec_calculate_borrow(liquidity_amount.as_nat(), remaining) {
                            Err(e) => r matches Err(e2) && e2 == e && *final(self) == *old(self),
                            Ok(v) => {
                                let ba = v.0;
                                if v.1 == 0 {
                                    r matches Err(e) && e == LendingError::BorrowTooSmall
                                        && *final(self) == *old(self)
                                } else if liquidity_amount.as_nat() == u256_limit() - 1 && v.1
                                    < slippage_limit.as_nat() {
                                    r matches Err(e) && e == LendingError::ExceededSlippage
                                        && *final(self) == *old(self)
                                } else if ba > rsv.liquidity.available_amount.as_nat() {
                                    r matches Err(e) && e == LendingError::InsufficientLiquidity
                                        && *final(self) == *old(self)
                                } else if rsv.liquidity.borrowed_amount_wads.val() + ba * (
                                WAD as nat) >= u256_limit() {
                                    r matches Err(e) && e == LendingError::MathOverflow && *final(self) == *old(self)
                                } else {
                                    let bi = borrow_index(ob.borrows@, reserve_key);
                                    let prior = if bi >= 0 {
                                        ob.borrows@[bi].borrowed_amount_wads.val()
                                    } else {
                                        0
                                    };
                                    if prior + ba * (WAD as nat) >= u256_limit() {
                                        r matches Err(e) && e == LendingError::MathOverflow
                                            && *final(self) == *old(self)
                                    } else {
                                        r is Ok && final(self).reserves@ == old(
                                            self,
                                        ).reserves@.update(
                                            ri,
                                            (reserve_key, final(self).reserves@[ri].1),
                                        ) && ({
                                            let nrsv = final(self).reserves@[ri].1;
                                            nrsv.liquidity.available_amount.as_nat()
                                                == rsv.liquidity.available_amount.as_nat() - ba
                                                && nrsv.liquidity.borrowed_amount_wads.val()
                                                == rsv.liquidity.borrowed_amount_wads.val() + ba
                                                * (WAD as nat) && nrsv.liquidity == (
                                            ReserveLiquidity {
                                                available_amount: nrsv.liquidity.available_amount,
                                                borrowed_amount_wads: nrsv.liquidity.borrowed_amount_wads,
                                                ..rsv.liquidity
                                            }) && nrsv == (Reserve {
                                                liquidity: nrsv.liquidity,
                                                last_update: (LastUpdate {
                                                    stale: true,
                                                    ..rsv.last_update
                                                }),
                                                ..rsv
                                            })
                                        }) && final(self).obligations@ == old(
                                            self,
                                        ).obligations@.update(
                                            oi,
                                            (caller, final(self).obligations@[oi].1),
                                        ) && ({
                                            let nob = final(self).obligations@[oi].1;
                                            nob.lending_market == ob.lending_market && nob.owner
                                                == ob.owner && nob.deposits@ == ob.deposits@
                                                && nob.deposited_value == ob.deposited_value
                                                && nob.borrowed_value == ob.borrowed_value
                                                && nob.allowed_borrow_value
                                                == ob.allowed_borrow_value
                                                && nob.unhealthy_borrow_value
                                                == ob.unhealthy_borrow_value && nob.last_update
                                                == (LastUpdate {
                                                stale: true,
                                                ..ob.last_update
                                            }) && (if bi >= 0 {
                                                nob.borrows@ == ob.borrows@.update(bi, (Liquidity {
                                                    borrowed_amount_wads: nob.borrows@[bi].borrowed_amount_wads,
                                                    ..ob.borrows@[bi]
                                                })) && nob.borrows@[bi].borrowed_amount_wads.val()
                                                    == prior + ba * (WAD as nat)
                                            } else {
                                                nob.borrows@.len() == ob.borrows@.len() + 1
                                                    && nob.borrows@ == ob.borrows@.push(
                                                    nob.borrows@.last(),
                                                ) && nob.borrows@.last() == (Liquidity {
                                                    borrow_reserve: reserve_key,
                                                    borrowed_amount_wads: nob.borrows@.last().borrowed_amount_wads,
                                                    market_value: Decimal(
                                                        (Uint256 { hi: 0, lo: 0 }),
                                                    ),
                                                    cumulative_borrow_rate_wads: Decimal(
                                                        (Uint256 {
                                                            hi: 0,
                                                            lo: crate::math::common::WAD as u128,
                                                        }),
                                                    ),
                                                }) && nob.borrows@.last().borrowed_amount_wads.val()
                                                    == ba * (WAD as nat)
                                            })
                                        }) && *final(self) == (NovaLending {
                                            reserves: final(self).reserves,
                                            obligations: final(self).obligations,
                                            ..*old(self)
                                        })
                                    }
                                }
                            },
                        }
                    }
                }
            }),
    {
        if liquidity_amount.is_zero() {
            return Err(LendingError::InvalidAmount);
        }
        let oidx = match find_pair_index(&self.obligations, caller) {
            Some(i) => i,
            None => {
                return Err(LendingError::InvalidObligationOwner);
            },
        };
        let ridx = match find_pair_index(&self.reserves, reserve_key) {
            Some(i) => i,
            None => {
                return Err(LendingError::InvalidAccountInput);
            },
        };
        let mut reserve = self.reserves[ridx].1;
        let mut obligation = copy_obligation(&self.obligations[oidx].1);
        if reserve.last_update.is_stale(clock) || obligation.last_update.is_stale(clock) {
            return Err(LendingError::ReserveStale);
        }
        if obligation.deposits.len() == 0 {
            return Err(LendingError::ObligationDepositsEmpty);
        }
        let remaining_borrow_value = obligation.remaining_borrow_value()?;
        if remaining_borrow_value.is_zero() {
            return Err(LendingError::BorrowTooLarge);
        }
        let borrow_result = reserve.calculate_borrow(liquidity_amount, remaining_borrow_value)?;
        if borrow_result.receive_amount.is_zero() {
            return Err(LendingError::BorrowTooSmall);
        }
        proof {
            let top = Uint256 { hi: u128::MAX, lo: u128::MAX };
            liquidity_amount.lemma_cmp(top);
            top.lemma_as_nat_bound();
        }
        if liquidity_amount == Uint256::max_value() && borrow_result.receive_amount.lt(
            &slippage_limit,
        ) {
            return Err(LendingError::ExceededSlippage);
        }
        proof {
            let w = WAD as nat;
            let ba = (spec_calculate_borrow(
                liquidity_amount.as_nat(),
                remaining_borrow_value.val(),
            )->Ok_0).0;
            assert((ba * w) / w == ba) by (nonlinear_arith)
                requires
                    w > 0,
            ;
        }
        reserve.liquidity.borrow(borrow_result.borrow_amount)?;
        reserve.last_update.mark_stale();
        proof {
            lemma_borrow_index(obligation.borrows@, reserve_key);
        }
        let li = obligation.find_or_add_liquidity_to_borrows(reserve_key)?;
        let floored = borrow_result.borrow_amount.try_floor_u64()?;
        let mut entry = obligation.borrows[li];
        entry.borrow(Uint256::from_u64(floored))?;
        obligation.borrows.set(li, entry);
        proof {
            let ob0 = old(self).obligations@[oidx as int].1;
            if borrow_index(ob0.borrows@, reserve_key) == -1 {
                assert(obligation.borrows@ =~= ob0.borrows@.push(entry));
            }
        }
        obligation.last_update.mark_stale();
        self.reserves.set(ridx, (reserve_key, reserve));
        self.obligations.set(oidx, (caller, obligation));
        Ok(())
    }

    /// Repay borrowed liquidity on an obligation, up to the outstanding
    /// debt.
    pub fn repay_obligation_liquidity(
        &mut self,
        caller: Address,
        reserve_key: Address,
        liquidity_amount: Uint256,
        clock: u64,
    ) -> (r: Result<(), LendingError>)
        ensures
            liquidity_amount.as_nat() == 0 ==> (r matches Err(e) && e
                == LendingError::InvalidAmount && *final(self) == *old(self)),
            liquidity_amount.as_nat() != 0 && pair_key_index(old(self).obligations@, caller)
                == -1 ==> (r matches Err(e) && e == LendingError::InvalidObligationOwner && *final(self) == *old(self)),
            liquidity_amount.as_nat() != 0 && pair_key_index(old(self).obligations@, caller)
                >= 0 && pair_key_index(old(self).reserves@, reserve_key) == -1 ==> (r matches
                Err(e) && e == LendingError::InvalidAccountInput && *final(self) == *old(self)),
            liquidity_amount.as_nat() != 0 && pair_key_index(old(self).obligations@, caller)
                >= 0 && pair_key_index(old(self).reserves@, reserve_key) >= 0 ==> ({
                let oi = pair_key_index(old(self).obligations@, caller);
                let ri = pair_key_index(old(self).reserves@, reserve_key);
                let ob = old(self).obligations@[oi].1;
                let rsv = old(self).reserves@[ri].1;
                let bi = borrow_index(ob.borrows@, reserve_key);
                if rsv.last_update.is_stale_spec(clock) || ob.last_update.is_stale_spec(clock) {
                    r matches Err(e) && e == LendingError::ReserveStale && *final(self) == *old(self)
                } else if bi == -1 || ob.borrows@[bi].borrowed_amount_wads.val() == 0 {
                    r matches Err(e) && e == LendingError::ObligationLiquidityEmpty && *final(self) == *old(self)
                } else {
                    match spec_calculate_repay(
                        liquidity_amount.as_nat(),
                        ob.borrows@[bi].borrowed_amount_wads.val(),
                    ) {
                        Err(e) => r matches Err(e2) && e2 == e && *final(self) == *old(self),
                        Ok(ra) => {
                            if ra == 0 {
                                r matches Err(e) && e == LendingError::RepayTooSmall && *final(self) == *old(self)
                            } else if rsv.liquidity.available_amount.as_nat() + ra
                                >= u256_limit() {
                                r matches Err(e) && e == LendingError::MathOverflow && *final(self) == *old(self)
                            } else if ra * (WAD as nat)
                                > rsv.liquidity.borrowed_amount_wads.val() {
                                r matches Err(e) && e == LendingError::MathOverflow && *final(self) == *old(self)
                            } else {
                                r is Ok && final(self).reserves@ == old(self).reserves@.update(
                                    ri,
                                    (reserve_key, final(self).reserves@[ri].1),
                                ) && ({
                                    let nrsv = final(self).reserves@[ri].1;
                                    nrsv.liquidity.available_amount.as_nat()
                                        == rsv.liquidity.available_amount.as_nat() + ra
                                        && nrsv.liquidity.borrowed_amount_wads.val()
                                        == rsv.liquidity.borrowed_amount_wads.val() - ra * (
                                    WAD as nat) && nrsv.liquidity == (ReserveLiquidity {
                                        available_amount: nrsv.liquidity.available_amount,
                                        borrowed_amount_wads: nrsv.liquidity.borrowed_amount_wads,
                                        ..rsv.liquidity
                                    }) && nrsv == (Reserve {
                                        liquidity: nrsv.liquidity,
                                        last_update: (LastUpdate {
                                            stale: true,
                                            ..rsv.last_update
                                        }),
                                        ..rsv
                                    })
                                }) && final(self).obligations@ == old(self).obligations@.update(
                                    oi,
                                    (caller, final(self).obligations@[oi].1),
                                ) && ({
                                    let nob = final(self).obligations@[oi].1;
                                    nob.lending_market == ob.lending_market && nob.owner
                                        == ob.owner && nob.deposits@ == ob.deposits@
                                        && nob.deposited_value == ob.deposited_value
                                        && nob.borrowed_value == ob.borrowed_value
                                        && nob.allowed_borrow_value == ob.allowed_borrow_value
                                        && nob.unhealthy_borrow_value
                                        == ob.unhealthy_borrow_value && nob.last_update == (
                                    LastUpdate { stale: true, ..ob.last_update }) && (if ra * (
                                    WAD as nat) == ob.borrows@[bi].borrowed_amount_wads.val() {
                                        nob.borrows@ == ob.borrows@.remove(bi)
                                    } else {
                                        nob.borrows@ == ob.borrows@.update(bi, (Liquidity {
                                            borrowed_amount_wads: nob.borrows@[bi].borrowed_amount_wads,
                                            ..ob.borrows@[bi]
                                        })) && nob.borrows@[bi].borrowed_amount_wads.val()
                                            == ob.borrows@[bi].borrowed_amount_wads.val() - ra * (
                                        WAD as nat)
                                    })
                                }) && *final(self) == (NovaLending {
                                    reserves: final(self).reserves,
                                    obligations: final(self).obligations,
                                    ..*old(self)
                                })
                            }
                        },
                    }
                }
            }),
    {
        if liquidity_amount.is_zero() {
            return Err(LendingError::InvalidAmount);
        }
        let oidx = match find_pair_index(&self.obligations, caller) {
            Some(i) => i,
            None => {
                return Err(LendingError::InvalidObligationOwner);
            },
        };
        let ridx = match find_pair_index(&self.reserves, reserve_key) {
            Some(i) => i,
            None => {
                return Err(LendingError::InvalidAccountInput);
            },
        };
        let mut reserve = self.reserves[ridx].1;
        let mut obligation = copy_obligation(&self.obligations[oidx].1);
        if reserve.last_update.is_stale(clock) || obligation.last_update.is_stale(clock) {
            return Err(LendingError::ReserveStale);
        }
        proof {
            lemma_borrow_index(obligation.borrows@, reserve_key);
        }
        let (liquidity, liquidity_index) = match obligation.find_liquidity_in_borrows(
            reserve_key,
        ) {
            Ok(p) => p,
            Err(_e) => {
                return Err(LendingError::ObligationLiquidityEmpty);
            },
        };
        if liquidity.borrowed_amount_wads.is_zero() {
            return Err(LendingError::ObligationLiquidityEmpty);
        }
        let repay_result = reserve.calculate_repay(
            liquidity_amount,
            liquidity.borrowed_amount_wads,
        )?;
        if repay_result.repay_amount.is_zero() {
            return Err(LendingError::RepayTooSmall);
        }
        proof {
            let w = WAD as nat;
            let b = liquidity.borrowed_amount_wads.val();
            let ra = spec_calculate_repay(liquidity_amount.as_nat(), b)->Ok_0;
            assert(ra <= b / w ==> ra * w <= b) by (nonlinear_arith)
                requires
                    w > 0,
            ;
            assert((ra * w) / w == ra) by (nonlinear_arith)
                requires
                    w > 0,
            ;
        }
        reserve.liquidity.repay(repay_result.repay_amount, repay_result.settle_amount)?;
        reserve.last_update.mark_stale();
        obligation.repay(repay_result.settle_amount, liquidity_index)?;
        obligation.last_update.mark_stale();
        self.reserves.set(ridx, (reserve_key, reserve));
        self.obligations.set(oidx, (caller, obligation));
        Ok(())
    }
}

/// Outcome of a flash loan: the checks performed in order on the reserve,
/// the fee schedule and the amount the receiver returned.  The pool itself
/// is left as it was: the drawn amount comes back within the same call.
pub open spec fn spec_flash_loan(rsv: Reserve, amount: nat, returned: nat) -> Result<
    (),
    LendingError,
> {
    let flash = if amount == u256_limit() - 1 {
        rsv.liquidity.available_amount.as_nat()
    } else {
        amount
    };
    let flw = rsv.config.fees.flash_loan_fee_wad.as_nat() * (WAD as nat);
    let pct = (rsv.config.fees.host_fee_percentage as nat) * (WAD as nat);
    if !wad_mul_ok(flash * (WAD as nat), flw) {
        Err(LendingError::MathOverflow)
    } else {
        let fee = wad_mul(flash * (WAD as nat), flw);
        if !wad_mul_ok(fee, pct) {
            Err(LendingError::MathOverflow)
        } else if wad_mul(fee, pct) > fee {
            Err(LendingError::MathOverflow)
        } else {
            let origination = (fee - wad_mul(fee, pct)) as nat;
            if origination / (WAD as nat) > u64::MAX {
                Err(LendingError::MathOverflow)
            } else if flash + origination / (WAD as nat) >= u256_limit() {
                Err(LendingError::MathOverflow)
            } else if flash > u64::MAX {
                Err(LendingError::MathOverflow)
            } else if flash > rsv.liquidity.available_amount.as_nat() {
                Err(LendingError::InsufficientLiquidity)
            } else if rsv.liquidity.borrowed_amount_wads.val() + flash * (WAD as nat)
                >= u256_limit() {
                Err(LendingError::MathOverflow)
            } else if returned < flash + origination / (WAD as nat) {
                Err(LendingError::NotEnoughLiquidityAfterFlashLoan)
            } else if wad_mul(fee, pct) / (WAD as nat) > u64::MAX {
                Err(LendingError::MathOverflow)
            } else {
                Ok(())
            }
        }
    }
}

impl NovaLending {
    /// Liquidate an unhealthy obligation: the liquidator settles part of the
    /// debt against one reserve and receives collateral from another at a
    /// premium.
    pub fn liquidate_obligation(
        &mut self,
        borrower: Address,
        repay_reserve_key: Address,
        withdraw_reserve_key: Address,
        liquidity_amount: Uint256,
        clock: u64,
    ) -> (r: Result<(), LendingError>)
        requires
            liquidity_amount.as_nat() < u128_limit(),
        ensures
            liquidity_amount.as_nat() == 0 ==> (r matches Err(e) && e
                == LendingError::InvalidAmount && *final(self) == *old(self)),
            liquidity_amount.as_nat() != 0 && pair_key_index(old(self).obligations@, borrower)
                == -1 ==> (r matches Err(e) && e == LendingError::InvalidObligationOwner && *final(self) == *old(self)),
            liquidity_amount.as_nat() != 0 && pair_key_index(old(self).obligations@, borrower)
                >= 0 && pair_key_index(old(self).reserves@, repay_reserve_key) == -1 ==> (r
                matches Err(e) && e == LendingError::InvalidAccountInput && *final(self) == *old(self)),
            liquidity_amount.as_nat() != 0 && pair_key_index(old(self).obligations@, borrower)
                >= 0 && pair_key_index(old(self).reserves@, repay_reserve_key) >= 0
                && pair_key_index(old(self).reserves@, withdraw_reserve_key) == -1 ==> (r
                matches Err(e) && e == LendingError::InvalidAccountInput && *final(self) == *old(self)),
            liquidity_amount.as_nat() != 0 && pair_key_index(old(self).obligations@, borrower)
                >= 0 && pair_key_index(old(self).reserves@, repay_reserve_key) >= 0
                && pair_key_index(old(self).reserves@, withdraw_reserve_key) >= 0 ==> ({
                let oi = pair_key_index(old(self).obligations@, borrower);
                let ri = pair_key_index(old(self).reserves@, repay_reserve_key);
                let wi = pair_key_index(old(self).reserves@, withdraw_reserve_key);
                let ob = old(self).obligations@[oi].1;
                let rrsv = old(self).reserves@[ri].1;
                let wrsv = old(self).reserves@[wi].1;
                let li = borrow_index(ob.borrows@, repay_reserve_key);
                let ci = deposit_index(ob.deposits@, withdraw_reserve_key);
                if rrsv.last_update.is_stale_spec(clock) || wrsv.last_update.is_stale_spec(clock)
                    || ob.last_update.is_stale_spec(clock) {
                    r matches Err(e) && e == LendingError::ReserveStale && *final(self) == *old(self)
                } else if ob.borrowed_value.val() < ob.unhealthy_borrow_value.val() {
                    r matches Err(e) && e == LendingError::ObligationHealthy && *final(self)
                        == *old(self)
                } else if li == -1 {
                    r matches Err(e) && e == LendingError::ObligationLiquidityEmpty && *final(self) == *old(self)
                } else if ci == -1 {
                    r matches Err(e) && e == LendingError::ObligationCollateralEmpty && *final(self) == *old(self)
                } else {
                    match spec_calculate_liquidation(
                        liquidity_amount.as_nat(),
                        ob.borrowed_value.val(),
                        ob.unhealthy_borrow_value.val(),
                        ob.deposits@[ci].market_value.val(),
                    ) {
                        Err(e) => r matches Err(e2) && e2 == e && *final(self) == *old(self),
                        Ok(v) => {
                            let settle = v.0;
                            let ra = v.1;
                            let wa = v.2;
                            if ra == 0 || wa == 0 {
                                r matches Err(e) && e == LendingError::LiquidationTooSmall
                                    && *final(self) == *old(self)
                            } else if rrsv.liquidity.available_amount.as_nat() + ra
                                >= u256_limit() {
                                r matches Err(e) && e == LendingError::MathOverflow && *final(self) == *old(self)
                            } else if settle > rrsv.liquidity.borrowed_amount_wads.val() {
                                r matches Err(e) && e == LendingError::MathOverflow && *final(self) == *old(self)
                            } else if settle > ob.borrows@[li].borrowed_amount_wads.val() {
                                r matches Err(e) && e == LendingError::RepayTooSmall && *final(self) == *old(self)
                            } else if wa > ob.deposits@[ci].deposited_amount.as_nat() {
                                r matches Err(e) && e == LendingError::WithdrawTooLarge && *final(self) == *old(self)
                            } else {
                                r is Ok && (if repay_reserve_key == withdraw_reserve_key {
                                    final(self).reserves@ == old(self).reserves@
                                } else {
                                    final(self).reserves@ == old(self).reserves@.update(
                                        ri,
                                        (repay_reserve_key, final(self).reserves@[ri].1),
                                    ) && ({
                                        let nrsv = final(self).reserves@[ri].1;
                                        nrsv.liquidity.available_amount.as_nat()
                                            == rrsv.liquidity.available_amount.as_nat() + ra
                                            && nrsv.liquidity.borrowed_amount_wads.val()
                                            == rrsv.liquidity.borrowed_amount_wads.val() - settle
                                            && nrsv.liquidity == (ReserveLiquidity {
                                            available_amount: nrsv.liquidity.available_amount,
                                            borrowed_amount_wads: nrsv.liquidity.borrowed_amount_wads,
                                            ..rrsv.liquidity
                                        }) && nrsv == (Reserve {
                                            liquidity: nrsv.liquidity,
                                            last_update: (LastUpdate {
                                                stale: true,
                                                ..rrsv.last_update
                                            }),
                                            ..rrsv
                                        })
                                    })
                                }) && final(self).obligations@ == old(self).obligations@.update(
                                    oi,
                                    (borrower, final(self).obligations@[oi].1),
                                ) && ({
                                    let nob = final(self).obligations@[oi].1;
                                    nob.lending_market == ob.lending_market && nob.owner
                                        == ob.owner && nob.deposited_value == ob.deposited_value
                                        && nob.borrowed_value == ob.borrowed_value
                                        && nob.allowed_borrow_value == ob.allowed_borrow_value
                                        && nob.unhealthy_borrow_value
                                        == ob.unhealthy_borrow_value && nob.last_update == (
                                    LastUpdate { stale: true, ..ob.last_update }) && (if settle
                                        == ob.borrows@[li].borrowed_amount_wads.val() {
                                        nob.borrows@ == ob.borrows@.remove(li)
                                    } else {
                                        nob.borrows@ == ob.borrows@.update(li, (Liquidity {
                                            borrowed_amount_wads: nob.borrows@[li].borrowed_amount_wads,
                                            ..ob.borrows@[li]
                                        })) && nob.borrows@[li].borrowed_amount_wads.val()
                                            == ob.borrows@[li].borrowed_amount_wads.val() - settle
                                    }) && (if wa == ob.deposits@[ci].deposited_amount.as_nat() {
                                        nob.deposits@ == ob.deposits@.remove(ci)
                                    } else {
                                        nob.deposits@ == ob.deposits@.update(ci, (Collateral {
                                            deposited_amount: nob.deposits@[ci].deposited_amount,
                                            ..ob.deposits@[ci]
                                        })) && nob.deposits@[ci].deposited_amount.as_nat()
                                            == ob.deposits@[ci].deposited_amount.as_nat() - wa
                                    })
                                }) && *final(self) == (NovaLending {
                                    reserves: final(self).reserves,
                                    obligations: final(self).obligations,
                                    ..*old(self)
                                })
                            }
                        },
                    }
                }
            }),
    {
        if liquidity_amount.is_zero() {
            return Err(LendingError::InvalidAmount);
        }
        let oidx = match find_pair_index(&self.obligations, borrower) {
            Some(i) => i,
            None => {
                return Err(LendingError::InvalidObligationOwner);
            },
        };
        let ridx = match find_pair_index(&self.reserves, repay_reserve_key) {
            Some(i) => i,
            None => {
                return Err(LendingError::InvalidAccountInput);
            },
        };
        let widx = match find_pair_index(&self.reserves, withdraw_reserve_key) {
            Some(i) => i,
            None => {
                return Err(LendingError::InvalidAccountInput);
            },
        };
        let mut repay_reserve = self.reserves[ridx].1;
        let withdraw_reserve = self.reserves[widx].1;
        let mut obligation = copy_obligation(&self.obligations[oidx].1);
        if repay_reserve.last_update.is_stale(clock) || withdraw_reserve.last_update.is_stale(
            clock,
        ) || obligation.last_update.is_stale(clock) {
            return Err(LendingError::ReserveStale);
        }
        if obligation.borrowed_value.lt(&obligation.unhealthy_borrow_value) {
            return Err(LendingError::ObligationHealthy);
        }
        proof {
            lemma_borrow_index(obligation.borrows@, repay_reserve_key);
            lemma_deposit_index(obligation.deposits@, withdraw_reserve_key);
        }
        let (liquidity, liquidity_index) = match obligation.find_liquidity_in_borrows(
            repay_reserve_key,
        ) {
            Ok(p) => p,
            Err(e) => {
                return Err(e);
            },
        };
        let (collateral, collateral_index) = match obligation.find_collateral_in_deposits(
            withdraw_reserve_key,
        ) {
            Ok(p) => p,
            Err(e) => {
                return Err(e);
            },
        };
        let liquidation_result = withdraw_reserve.calculate_liquidation(
            liquidity_amount,
            &obligation,
            &liquidity,
            &collateral,
        )?;
        if liquidation_result.repay_amount.is_zero() || liquidation_result.withdraw_amount.is_zero(
        ) {
            return Err(LendingError::LiquidationTooSmall);
        }
        repay_reserve.liquidity.repay(
            liquidation_result.repay_amount,
            liquidation_result.settle_amount,
        )?;
        repay_reserve.last_update.mark_stale();
        obligation.repay(liquidation_result.settle_amount, liquidity_index)?;
        obligation.withdraw(liquidation_result.withdraw_amount, collateral_index)?;
        obligation.last_update.mark_stale();
        self.reserves.set(ridx, (repay_reserve_key, repay_reserve));
        self.reserves.set(widx, (withdraw_reserve_key, withdraw_reserve));
        proof {
            if repay_reserve_key == withdraw_reserve_key {
                assert(self.reserves@ =~= old(self).reserves@);
            }
        }
        self.obligations.set(oidx, (borrower, obligation));
        Ok(())
    }

    /// Lend `amount` for the duration of one call: the receiver must have
    /// returned at least the drawn amount plus the origination fee, or the
    /// whole operation fails; the pool ends as it began.
    pub fn flash_loan(&mut self, reserve_key: Address, amount: Uint256, returned_amount: Uint256) -> (r: Result<(), LendingError>)
        requires
            amount.as_nat() < u128_limit() || amount.as_nat() == u256_limit() - 1,
            pair_key_index(old(self).reserves@, reserve_key) >= 0 ==> old(
                self,
            ).reserves@[pair_key_index(
                old(self).reserves@,
                reserve_key,
            )].1.config.fees.flash_loan_fee_wad.as_nat() < u128_limit() && (amount.as_nat()
                == u256_limit() - 1 ==> old(self).reserves@[pair_key_index(
                old(self).reserves@,
                reserve_key,
            )].1.liquidity.available_amount.as_nat() < u128_limit()),
        ensures
            *final(self) == *old(self),
            amount.as_nat() == 0 ==> (r matches Err(e) && e == LendingError::InvalidAmount),
            amount.as_nat() != 0 && pair_key_index(old(self).reserves@, reserve_key) == -1
                ==> (r matches Err(e) && e == LendingError::InvalidAccountInput),
            amount.as_nat() != 0 && pair_key_index(old(self).reserves@, reserve_key) >= 0 ==> r
                == spec_flash_loan(
                old(self).reserves@[pair_key_index(old(self).reserves@, reserve_key)].1,
                amount.as_nat(),
                returned_amount.as_nat(),
            ),
    {
        if amount.is_zero() {
            return Err(LendingError::InvalidAmount);
        }
        let ridx = match find_pair_index(&self.reserves, reserve_key) {
            Some(i) => i,
            None => {
                return Err(LendingError::InvalidAccountInput);
            },
        };
        let mut reserve = self.reserves[ridx].1;
        proof {
            let top = Uint256 { hi: u128::MAX, lo: u128::MAX };
            amount.lemma_cmp(top);
            top.lemma_as_nat_bound();
        }
        let flash_loan_amount = if amount == Uint256::max_value() {
            reserve.liquidity.available_amount
        } else {
            amount
        };
        let fees = reserve.config.fees.calculate_flash_loan_fees(
            Decimal::from_u128(flash_loan_amount.as_u128()),
        )?;
        let origination_fee = fees.0;
        let host_fee = fees.1;
        let origination_floor = origination_fee.try_floor_u64()?;
        let returned_amount_required = match crate::math::uint256::u256_checked_add(
            flash_loan_amount,
            Uint256::from_u64(origination_floor),
        ) {
            Some(v) => v,
            None => {
                return Err(LendingError::MathOverflow);
            },
        };
        proof {
            let w = WAD as nat;
            let f = flash_loan_amount.as_nat();
            assert((f * w) / w == f) by (nonlinear_arith)
                requires
                    w > 0,
            ;
        }
        reserve.liquidity.borrow(Decimal::from_u128(flash_loan_amount.as_u128()))?;
        if returned_amount.lt(&returned_amount_required) {
            return Err(LendingError::NotEnoughLiquidityAfterFlashLoan);
        }
        reserve.liquidity.repay(
            flash_loan_amount,
            Decimal::from_u128(flash_loan_amount.as_u128()),
        )?;
        let _host_fee_floor = host_fee.try_floor_u64()?;
        Ok(())
    }
}

/// With no collateral in circulation the exchange rate is exactly one, so a
/// liquidity deposit mints exactly as much collateral, and never overflows.
/// Together with the contract of `Reserve::deposit_liquidity`, depositing
/// into such a reserve returns exactly the deposited amount.
pub proof fn lemma_exchange_rate_bootstrap(r: Reserve, amount: nat)
    requires
        r.collateral.mint_total_supply.as_nat() == 0,
        amount <= u64::MAX,
    ensures
        r.spec_exchange_rate() == WAD,
        wad_mul_ok(r.spec_exchange_rate(), amount * (WAD as nat)),
        r.spec_minted(amount) == amount,
{
    let w = WAD as nat;
    let c = u128_limit();
    assert(w * (amount * w) < c * c) by (nonlinear_arith)
        requires
            amount <= u64::MAX,
            w <= 0x10000000000000000,
            c >= 0x100000000000000000000000000000000,
    ;
    assert((w * (amount * w)) / w == amount * w) by (nonlinear_arith)
        requires
            w > 0,
    ;
    assert((amount * w) / w == amount) by (nonlinear_arith)
        requires
            w > 0,
    ;
}

/// Round trip: in a reserve with no outstanding borrows whose collateral
/// supply equals its available liquidity, the exchange rate is exactly one,
/// a deposit of `amount` mints exactly `amount`, and redeeming that much
/// collateral from the resulting pool returns exactly `amount`.
pub proof fn lemma_deposit_redeem_round_trip(r: Reserve, r2: Reserve, amount: nat)
    requires
        r.liquidity.borrowed_amount_wads.val() == 0,
        r.liquidity.available_amount.as_nat() == r.collateral.mint_total_supply.as_nat(),
        r.liquidity.available_amount.as_nat() + amount <= u64::MAX,
        amount > 0,
        r2.liquidity.borrowed_amount_wads.val() == 0,
        r2.liquidity.available_amount.as_nat() == r.liquidity.available_amount.as_nat() + amount,
        r2.collateral.mint_total_supply.as_nat() == r.collateral.mint_total_supply.as_nat()
            + amount,
    ensures
        r.spec_exchange_rate() == WAD,
        r.spec_minted(amount) == amount,
        r2.spec_exchange_rate() == WAD,
        r2.spec_redeemed(amount) == amount,
{
    let w = WAD as nat;
    let c = u128_limit();
    let s = r.liquidity.available_amount.as_nat();
    if s == 0 {
        lemma_exchange_rate_bootstrap(r, amount);
    } else {
        assert(r.liquidity.spec_total_supply() == s);
        assert((s * w) * w < c * c) by (nonlinear_arith)
            requires
                s <= u64::MAX,
                w <= 0x10000000000000000,
                c >= 0x100000000000000000000000000000000,
        ;
        assert(((s * w) * w) / (s * w) == w) by (nonlinear_arith)
            requires
                s > 0,
                w > 0,
        ;
        assert(r.spec_exchange_rate() == w);
        assert(w * (amount * w) < c * c) by (nonlinear_arith)
            requires
                amount <= u64::MAX,
                w <= 0x10000000000000000,
                c >= 0x100000000000000000000000000000000,
        ;
        assert((w * (amount * w)) / w == amount * w) by (nonlinear_arith)
            requires
                w > 0,
        ;
        assert((amount * w) / w == amount) by (nonlinear_arith)
            requires
                w > 0,
        ;
        assert(r.spec_minted(amount) == amount);
    }
    let s2 = s + amount;
    assert(r2.liquidity.spec_total_supply() == s2);
    assert((s2 * w) * w < c * c) by (nonlinear_arith)
        requires
            s2 <= u64::MAX,
            w <= 0x10000000000000000,
            c >= 0x100000000000000000000000000000000,
    ;
    assert(((s2 * w) * w) / (s2 * w) == w) by (nonlinear_arith)
        requires
            s2 > 0,
            w > 0,
    ;
    assert(r2.spec_exchange_rate() == w);
    assert(((amount * w) * w) / w == amount * w) by (nonlinear_arith)
        requires
            w > 0,
    ;
    assert((amount * w) / w == amount) by (nonlinear_arith)
        requires
            w > 0,
    ;
    assert(r2.spec_redeemed(amount) == amount);
}

/// Interest never runs backwards: scaling a debt by the growth of a
/// cumulative-rate index that has not decreased leaves the debt unchanged or
/// larger.  Together with the contract of `accrue_interest`, an index below
/// the stored snapshot is rejected outright.
pub proof fn lemma_monotone_interest(debt: nat, old_index: nat, new_index: nat)
    requires
        new_index >= old_index,
        wad_div_ok(new_index, old_index),
    ensures
        wad_div(new_index, old_index) >= WAD,
        wad_mul(debt, wad_div(new_index, old_index)) >= debt,
{
    let w = WAD as nat;
    assert((new_index * w) / old_index >= w) by (nonlinear_arith)
        requires
            new_index >= old_index,
            old_index > 0,
            w > 0,
    ;
    let ratio = wad_div(new_index, old_index);
    assert((debt * ratio) / w >= debt) by (nonlinear_arith)
        requires
            ratio >= w,
            w > 0,
    ;
}

/// Health invariant of a refresh: starting from accumulators that satisfy
/// it, revaluing the deposits keeps the allowed-borrow value at most the
/// deposited value and the unhealthy-borrow value at least the allowed one,
/// provided every reserve's configuration is valid and its liquidation
/// threshold is at least its loan-to-value ratio.
pub proof fn lemma_refresh_health(
    reserves: Seq<(Address, Reserve)>,
    deposits: Seq<Collateral>,
    clock: u64,
    deposited: nat,
    allowed: nat,
    unhealthy: nat,
)
    requires
        forall|i: int|
            0 <= i < reserves.len() ==> (#[trigger] reserves[i].1.config).is_valid()
                && reserves[i].1.config.liquidation_threshold
                >= reserves[i].1.config.loan_to_value_ratio,
        allowed <= deposited,
        unhealthy >= allowed,
    ensures
        spec_refresh_deposits(reserves, deposits, clock, deposited, allowed, unhealthy) matches
            Ok(v) ==> v.2 <= v.1 && v.3 >= v.2,
    decreases deposits.len(),
{
    if deposits.len() != 0 {
        let c = deposits[0];
        let ri = pair_key_index(reserves, c.deposit_reserve);
        if ri != -1 {
            lemma_pair_key_index(reserves, c.deposit_reserve);
            let rsv = reserves[ri].1;
            if !rsv.last_update.is_stale_spec(clock) {
                match spec_market_value(
                    c.deposited_amount.as_nat(),
                    rsv.liquidity.market_price.val(),
                    rsv.liquidity.mint_decimals,
                ) {
                    Err(_) => {},
                    Ok(mv) => {
                        let w = WAD as nat;
                        let ps = PERCENT_SCALER as nat;
                        let ltv = (rsv.config.loan_to_value_ratio as nat) * ps;
                        let thr = (rsv.config.liquidation_threshold as nat) * ps;
                        assert(w == 100 * ps);
                        assert(ltv <= w) by (nonlinear_arith)
                            requires
                                ltv == (rsv.config.loan_to_value_ratio as nat) * ps,
                                rsv.config.loan_to_value_ratio <= 100,
                                w == 100 * ps,
                        ;
                        assert(thr >= ltv) by (nonlinear_arith)
                            requires
                                ltv == (rsv.config.loan_to_value_ratio as nat) * ps,
                                thr == (rsv.config.liquidation_threshold as nat) * ps,
                                rsv.config.liquidation_threshold
                                    >= rsv.config.loan_to_value_ratio,
                                ps > 0,
                        ;
                        if wad_mul_ok(mv, ltv) {
                            assert((mv * ltv) / w <= mv) by (nonlinear_arith)
                                requires
                                    ltv <= w,
                                    w > 0,
                            ;
                        }
                        if wad_mul_ok(mv, thr) {
                            assert((mv * thr) / w >= (mv * ltv) / w) by (nonlinear_arith)
                                requires
                                    thr >= ltv,
                                    w > 0,
                            ;
                        }
                        if wad_mul_ok(mv, ltv) && wad_mul_ok(mv, thr) && deposited + mv
                            < u256_limit() && allowed + wad_mul(mv, ltv) < u256_limit()
                            && unhealthy + wad_mul(mv, thr) < u256_limit() {
                            lemma_refresh_health(
                                reserves,
                                deposits.drop_first(),
                                clock,
                                (deposited + mv) as nat,
                                (allowed + wad_mul(mv, ltv)) as nat,
                                (unhealthy + wad_mul(mv, thr)) as nat,
                            );
                        }
                    },
                }
            }
        }
    }
}

} // verus!
