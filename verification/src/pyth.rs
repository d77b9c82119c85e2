//! Price oracle: publisher-gated price records and the pull-based query the
//! lending core consumes.
//!
//! A query returns no price when the asset is unknown, not trading, too
//! stale, or when the published confidence interval is too wide relative to
//! the price, exactly as the core's collaborator contract expects.

use vstd::prelude::*;
use crate::Address;
use crate::error::LendingError;
use crate::processor::{pair_key_index, lemma_pair_key_index, find_pair_index, pow10,
    lemma_pow10_increases};

verus! {

/// A published price is unusable once this many slots have elapsed.
pub const STALE_PRICE_THRESHOLD_SLOTS: u64 = 5;

/// One published price observation.
#[derive(Clone, Copy, Debug, PartialEq, Eq, Structural)]
pub struct PriceRecord {
    /// Price mantissa; negative values never convert.
    pub value: i64,
    /// Confidence interval around the price.
    pub confidence: u64,
    /// Trading status; only 1 (trading) is usable.
    pub status: u8,
    /// Slot the observation was published at.
    pub publish_slot: u64,
    /// Decimal exponent of the mantissa.
    pub exponent: i32,
}

/// Magnitude of a signed 64-bit value.
pub open spec fn spec_abs_u64(v: i64) -> nat {
    if v >= 0 {
        v as nat
    } else {
        (-(v as int)) as nat
    }
}

/// Magnitude of a signed 64-bit value.
fn abs_u64(v: i64) -> (r: u64)
    ensures
        r == spec_abs_u64(v),
{
    if v >= 0 {
        v as u64
    } else {
        ((-(v as i128)) as u64)
    }
}

/// Product of two 64-bit values, saturating at the largest one.
pub open spec fn spec_saturating_mul(a: nat, b: nat) -> nat {
    if a * b > u64::MAX {
        u64::MAX as nat
    } else {
        a * b
    }
}

/// Product of two 64-bit values, saturating at the largest one.
fn saturating_mul_u64(a: u64, b: u64) -> (r: u64)
    ensures
        r == spec_saturating_mul(a as nat, b as nat),
{
    if b != 0 && a > u64::MAX / b {
        proof {
            assert((a as nat) * (b as nat) > u64::MAX) by (nonlinear_arith)
                requires
                    (a as nat) > (u64::MAX as nat) / (b as nat),
                    b > 0,
            ;
        }
        u64::MAX
    } else {
        proof {
            if b != 0 {
                assert((a as nat) * (b as nat) <= u64::MAX) by (nonlinear_arith)
                    requires
                        (a as nat) <= (u64::MAX as nat) / (b as nat),
                        b > 0,
                ;
            }
        }
        a * b
    }
}

/// Mantissa and exponent as an unscaled 64-bit price: negative mantissas
/// and out-of-range scalings convert to nothing.
pub open spec fn spec_convert_price(value: i64, exponent: i32) -> Option<u64> {
    if value < 0 {
        None
    } else {
        let magnitude = spec_abs_u64(value);
        if exponent >= 0 {
            if pow10(exponent as nat) > u64::MAX {
                None
            } else if magnitude * pow10(exponent as nat) > u64::MAX {
                None
            } else {
                Some((magnitude * pow10(exponent as nat)) as u64)
            }
        } else {
            if pow10((-(exponent as int)) as nat) > u64::MAX {
                None
            } else {
                Some((magnitude / pow10((-(exponent as int)) as nat)) as u64)
            }
        }
    }
}

/// The usable price derived from a record at `current_slot`: nothing when
/// the record is stale, not trading, too uncertain, or does not convert.
pub open spec fn spec_usable_price(
    record: PriceRecord,
    current_slot: u64,
    min_confidence_ratio: u64,
) -> Option<u64> {
    if current_slot < record.publish_slot {
        None
    } else if current_slot - record.publish_slot >= STALE_PRICE_THRESHOLD_SLOTS {
        None
    } else if record.status != 1 {
        None
    } else {
        let magnitude = spec_abs_u64(record.value);
        if magnitude > 0 && record.confidence > spec_saturating_mul(
            magnitude,
            min_confidence_ratio as nat,
        ) / 100 {
            None
        } else {
            spec_convert_price(record.value, record.exponent)
        }
    }
}

/// Publisher-gated price store.
#[derive(Clone, Debug, PartialEq, Eq)]
pub struct PythOracle {
    /// Latest observation per asset.
    pub prices: Vec<(Address, PriceRecord)>,
    /// Identities allowed to publish besides the admin.
    pub approved_publishers: Vec<(Address, bool)>,
    /// Oracle administrator.
    pub admin: Address,
    /// Largest tolerated confidence, in percent of the price.
    pub min_confidence_ratio: u64,
}

impl PythOracle {
    /// Whether `caller` may publish prices.
    pub open spec fn spec_may_publish(self, caller: Address) -> bool {
        caller == self.admin || {
            let i = pair_key_index(self.approved_publishers@, caller);
            i >= 0 && self.approved_publishers@[i].1
        }
    }

    /// Initialize the oracle with a 5-percent confidence tolerance.
    pub fn init(admin: Address) -> (r: Self)
        ensures
            r.admin == admin,
            r.min_confidence_ratio == 5,
            r.prices@.len() == 0,
            r.approved_publishers@.len() == 0,
    {
        PythOracle {
            prices: Vec::new(),
            approved_publishers: Vec::new(),
            admin,
            min_confidence_ratio: 5,
        }
    }

    /// Record a price observation; only the admin or an approved publisher
    /// may, and only for an asset that is trading.
    pub fn update_price(
        &mut self,
        caller: Address,
        token_address: Address,
        price: i64,
        confidence: u64,
        exponent: i32,
        status: u8,
        publish_slot: u64,
    ) -> (r: Result<(), LendingError>)
        ensures
            !old(self).spec_may_publish(caller) ==> (r matches Err(e) && e
                == LendingError::InvalidOracleConfig && *final(self) == *old(self)),
            old(self).spec_may_publish(caller) && status != 1 ==> (r matches Err(e) && e
                == LendingError::InvalidOracleConfig && *final(self) == *old(self)),
            old(self).spec_may_publish(caller) && status == 1 ==> (r is Ok && ({
                let record = (PriceRecord { value: price, confidence, status, publish_slot, exponent });
                let i = pair_key_index(old(self).prices@, token_address);
                (if i >= 0 {
                    final(self).prices@ == old(self).prices@.update(i, (token_address, record))
                } else {
                    final(self).prices@ == old(self).prices@.push((token_address, record))
                }) && *final(self) == (PythOracle { prices: final(self).prices, ..*old(self) })
            })),
    {
        proof {
            lemma_pair_key_index(self.approved_publishers@, caller);
            lemma_pair_key_index(self.prices@, token_address);
        }
        let authorized = if caller == self.admin {
            true
        } else {
            match find_pair_index(&self.approved_publishers, caller) {
                Some(i) => self.approved_publishers[i].1,
                None => false,
            }
        };
        if !authorized {
            return Err(LendingError::InvalidOracleConfig);
        }
        if status != 1 {
            return Err(LendingError::InvalidOracleConfig);
        }
        let record = PriceRecord { value: price, confidence, status, publish_slot, exponent };
        match find_pair_index(&self.prices, token_address) {
            Some(i) => {
                self.prices.set(i, (token_address, record));
            },
            None => {
                self.prices.push((token_address, record));
            },
        }
        Ok(())
    }

    /// Mark `publisher` as allowed to publish; only the admin may.
    pub fn add_publisher(&mut self, caller: Address, publisher: Address) -> (r: Result<
        (),
        LendingError,
    >)
        ensures
            caller != old(self).admin ==> (r matches Err(e) && e
                == LendingError::InvalidOracleConfig && *final(self) == *old(self)),
            caller == old(self).admin ==> (r is Ok && ({
                let i = pair_key_index(old(self).approved_publishers@, publisher);
                (if i >= 0 {
                    final(self).approved_publishers@ == old(self).approved_publishers@.update(
                        i,
                        (publisher, true),
                    )
                } else {
                    final(self).approved_publishers@ == old(self).approved_publishers@.push(
                        (publisher, true),
                    )
                }) && *final(self) == (PythOracle {
                    approved_publishers: final(self).approved_publishers,
                    ..*old(self)
                })
            })),
    {
        if caller != self.admin {
            return Err(LendingError::InvalidOracleConfig);
        }
        proof {
            lemma_pair_key_index(self.approved_publishers@, publisher);
        }
        match find_pair_index(&self.approved_publishers, publisher) {
            Some(i) => {
                self.approved_publishers.set(i, (publisher, true));
            },
            None => {
                self.approved_publishers.push((publisher, true));
            },
        }
        Ok(())
    }

    /// Withdraw `publisher`'s right to publish; only the admin may.
    pub fn remove_publisher(&mut self, caller: Address, publisher: Address) -> (r: Result<
        (),
        LendingError,
    >)
        ensures
            caller != old(self).admin ==> (r matches Err(e) && e
                == LendingError::InvalidOracleConfig && *final(self) == *old(self)),
            caller == old(self).admin ==> (r is Ok && ({
                let i = pair_key_index(old(self).approved_publishers@, publisher);
                (if i >= 0 {
                    final(self).approved_publishers@ == old(self).approved_publishers@.update(
                        i,
                        (publisher, false),
                    )
                } else {
                    final(self).approved_publishers@ == old(self).approved_publishers@.push(
                        (publisher, false),
                    )
                }) && *final(self) == (PythOracle {
                    approved_publishers: final(self).approved_publishers,
                    ..*old(self)
                })
            })),
    {
        if caller != self.admin {
            return Err(LendingError::InvalidOracleConfig);
        }
        proof {
            lemma_pair_key_index(self.approved_publishers@, publisher);
        }
        match find_pair_index(&self.approved_publishers, publisher) {
            Some(i) => {
                self.approved_publishers.set(i, (publisher, false));
            },
            None => {
                self.approved_publishers.push((publisher, false));
            },
        }
        Ok(())
    }

    /// The usable price of `token_address` at `current_slot`, after the
    /// staleness, status and confidence gates.
    pub fn get_price(&self, token_address: Address, current_slot: u64) -> (r: Option<u64>)
        ensures
            pair_key_index(self.prices@, token_address) == -1 ==> r is None,
            pair_key_index(self.prices@, token_address) >= 0 ==> r == spec_usable_price(
                self.prices@[pair_key_index(self.prices@, token_address)].1,
                current_slot,
                self.min_confidence_ratio,
            ),
    {
        let i = match find_pair_index(&self.prices, token_address) {
            Some(i) => i,
            None => {
                return None;
            },
        };
        let record = self.prices[i].1;
        if current_slot < record.publish_slot {
            return None;
        }
        if current_slot - record.publish_slot >= STALE_PRICE_THRESHOLD_SLOTS {
            return None;
        }
        if record.status != 1 {
            return None;
        }
        let price_value = abs_u64(record.value);
        if price_value > 0 {
            if record.confidence > saturating_mul_u64(price_value, self.min_confidence_ratio)
                / 100 {
                return None;
            }
        }
        convert_pyth_price_to_u64(record.value, record.exponent)
    }

    /// The usable price together with the converted confidence interval,
    /// after the staleness and status gates.
    pub fn get_price_with_confidence(&self, token_address: Address, current_slot: u64) -> (r:
        Option<(u64, u64)>)
        ensures
            pair_key_index(self.prices@, token_address) == -1 ==> r is None,
            pair_key_index(self.prices@, token_address) >= 0 ==> ({
                let record = self.prices@[pair_key_index(self.prices@, token_address)].1;
                if current_slot < record.publish_slot || current_slot - record.publish_slot
                    >= STALE_PRICE_THRESHOLD_SLOTS || record.status != 1 {
                    r is None
                } else {
                    match spec_convert_price(record.value, record.exponent) {
                        None => r is None,
                        Some(price) => match spec_convert_price(
                            record.confidence as i64,
                            record.exponent,
                        ) {
                            None => r is None,
                            Some(conf) => r == Some((price, conf)),
                        },
                    }
                }
            }),
    {
        let i = match find_pair_index(&self.prices, token_address) {
            Some(i) => i,
            None => {
                return None;
            },
        };
        let record = self.prices[i].1;
        if current_slot < record.publish_slot {
            return None;
        }
        if current_slot - record.publish_slot >= STALE_PRICE_THRESHOLD_SLOTS {
            return None;
        }
        if record.status != 1 {
            return None;
        }
        let market_price = match convert_pyth_price_to_u64(record.value, record.exponent) {
            Some(p) => p,
            None => {
                return None;
            },
        };
        let confidence_signed = #[verifier::truncate] (record.confidence as i64);
        let confidence_value = match convert_pyth_price_to_u64(
            confidence_signed,
            record.exponent,
        ) {
            Some(c) => c,
            None => {
                return None;
            },
        };
        Some((market_price, confidence_value))
    }

    /// Change the confidence tolerance; only the admin may.
    pub fn set_min_confidence_ratio(&mut self, caller: Address, ratio: u64) -> (r: Result<
        (),
        LendingError,
    >)
        ensures
            caller != old(self).admin ==> (r matches Err(e) && e
                == LendingError::InvalidOracleConfig && *final(self) == *old(self)),
            caller == old(self).admin ==> (r is Ok && *final(self) == (PythOracle {
                min_confidence_ratio: ratio,
                ..*old(self)
            })),
    {
        if caller != self.admin {
            return Err(LendingError::InvalidOracleConfig);
        }
        self.min_confidence_ratio = ratio;
        Ok(())
    }

    /// Hand the oracle to a new admin; only the current admin may.
    pub fn transfer_admin(&mut self, caller: Address, new_admin: Address) -> (r: Result<
        (),
        LendingError,
    >)
        ensures
            caller != old(self).admin ==> (r matches Err(e) && e
                == LendingError::InvalidOracleConfig && *final(self) == *old(self)),
            caller == old(self).admin ==> (r is Ok && *final(self) == (PythOracle {
                admin: new_admin,
                ..*old(self)
            })),
    {
        if caller != self.admin {
            return Err(LendingError::InvalidOracleConfig);
        }
        self.admin = new_admin;
        Ok(())
    }

    /// Whether `address` is an approved publisher.
    pub fn is_approved_publisher(&self, address: Address) -> (r: bool)
        ensures
            r == ({
                let i = pair_key_index(self.approved_publishers@, address);
                i >= 0 && self.approved_publishers@[i].1
            }),
    {
        proof {
            crate::processor::lemma_pair_key_index(self.approved_publishers@, address);
        }
        match find_pair_index(&self.approved_publishers, address) {
            Some(i) => self.approved_publishers[i].1,
            None => false,
        }
    }

    /// Assets with a published price are tracked per record; no separate
    /// listing is kept.
    pub fn get_supported_tokens(&self) -> (r: Vec<Address>)
        ensures
            r@.len() == 0,
    {
        Vec::new()
    }
}

/// Mantissa and exponent as an unscaled 64-bit price.
fn convert_pyth_price_to_u64(price: i64, exponent: i32) -> (r: Option<u64>)
    ensures
        r == spec_convert_price(price, exponent),
{
    if price < 0 {
        return None;
    }
    let price_unsigned = abs_u64(price);
    if exponent >= 0 {
        if exponent > 255 {
            proof {
                reveal_with_fuel(pow10, 21);
                assert(pow10(20) > u64::MAX);
                lemma_pow10_increases(20, exponent as nat);
            }
            return None;
        }
        let multiplier = match crate::processor::pow10_u64(exponent as u8) {
            Some(m) => m,
            None => {
                return None;
            },
        };
        if multiplier != 0 && price_unsigned > u64::MAX / multiplier {
            proof {
                assert((price_unsigned as nat) * (multiplier as nat) > u64::MAX)
                    by (nonlinear_arith)
                    requires
                        price_unsigned > u64::MAX / multiplier,
                        multiplier > 0,
                ;
            }
            return None;
        }
        proof {
            assert(pow10(exponent as nat) >= 1) by {
                lemma_pow10_increases(0, exponent as nat);
            }
            assert((price_unsigned as nat) * (multiplier as nat) <= u64::MAX)
                by (nonlinear_arith)
                requires
                    price_unsigned <= u64::MAX / multiplier,
                    multiplier > 0,
            ;
        }
        Some(price_unsigned * multiplier)
    } else {
        let exponent_abs: i64 = -(exponent as i64);
        if exponent_abs > 255 {
            proof {
                reveal_with_fuel(pow10, 21);
                assert(pow10(20) > u64::MAX);
                lemma_pow10_increases(20, (-(exponent as int)) as nat);
            }
            return None;
        }
        let divisor = match crate::processor::pow10_u64(exponent_abs as u8) {
            Some(d) => d,
            None => {
                return None;
            },
        };
        proof {
            assert(pow10((-(exponent as int)) as nat) >= 1) by {
                lemma_pow10_increases(0, (-(exponent as int)) as nat);
            }
        }
        Some(price_unsigned / divisor)
    }
}

} // verus!
