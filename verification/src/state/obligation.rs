//! A user's borrowing position: collateral deposits and liquidity borrows
//! across reserves, with cached aggregate valuations.

use vstd::prelude::*;
use vstd::pervasive::VecAdditionalExecFns;
use crate::Address;
use crate::error::LendingError;
use crate::math::{Decimal, Rate, TryAdd, TrySub, TryDiv, TryMul};
use crate::math::common::{wad_mul_ok, wad_mul, wad_div_ok, wad_div};
use crate::math::uint256::{Uint256, u256_limit};

verus! {

/// Bound on the combined number of deposit and borrow entries, to keep the
/// cost of a refresh predictable.
pub const MAX_OBLIGATION_RESERVES: usize = 10;

/// Portion of an unhealthy position that may be repaid in one liquidation,
/// in percent.
pub const LIQUIDATION_CLOSE_FACTOR: u8 = 50;

/// A collateral deposit backed by one reserve.
#[derive(Clone, Copy, Debug, PartialEq, Eq, Structural)]
pub struct ObligationCollateral {
    /// Reserve the collateral was deposited into.
    pub deposit_reserve: Address,
    /// Amount of collateral tokens deposited.
    pub deposited_amount: Uint256,
    /// Market value of the deposit, valid only right after a refresh.
    pub market_value: Decimal,
}

/// A liquidity borrow drawn from one reserve.
#[derive(Clone, Copy, Debug, PartialEq, Eq, Structural)]
pub struct ObligationLiquidity {
    /// Reserve the liquidity was borrowed from.
    pub borrow_reserve: Address,
    /// Cumulative-rate index snapshot taken at the last interest accrual.
    pub cumulative_borrow_rate_wads: Decimal,
    /// Outstanding debt, scaled.
    pub borrowed_amount_wads: Decimal,
    /// Market value of the debt, valid only right after a refresh.
    pub market_value: Decimal,
}

/// A user's position: deposits, borrows and cached aggregate valuations.
#[derive(Clone, Debug, PartialEq, Eq)]
pub struct Obligation {
    /// Record version.
    pub version: u8,
    /// Slot of the last refresh.
    pub last_update_slot: u64,
    /// Whether the cached aggregates are stale.
    pub last_update_stale: bool,
    /// Market the obligation belongs to.
    pub lending_market: Address,
    /// Position owner.
    pub owner: Address,
    /// Collateral entries, one per reserve.
    pub deposits: Vec<ObligationCollateral>,
    /// Borrow entries, one per reserve.
    pub borrows: Vec<ObligationLiquidity>,
    /// Total market value of the deposits.
    pub deposited_value: Decimal,
    /// Total market value of the borrows.
    pub borrowed_value: Decimal,
    /// Borrow capacity granted by the deposits.
    pub allowed_borrow_value: Decimal,
    /// Borrowed value beyond which the position may be liquidated.
    pub unhealthy_borrow_value: Decimal,
}

/// First index holding a collateral entry for `reserve`, or -1 when none
/// does.
pub open spec fn collateral_index(s: Seq<ObligationCollateral>, reserve: Address) -> int
    decreases s.len(),
{
    if s.len() == 0 {
        -1
    } else if s[0].deposit_reserve == reserve {
        0
    } else if collateral_index(s.drop_first(), reserve) == -1 {
        -1
    } else {
        collateral_index(s.drop_first(), reserve) + 1
    }
}

/// First index holding a borrow entry for `reserve`, or -1 when none does.
pub open spec fn liquidity_index(s: Seq<ObligationLiquidity>, reserve: Address) -> int
    decreases s.len(),
{
    if s.len() == 0 {
        -1
    } else if s[0].borrow_reserve == reserve {
        0
    } else if liquidity_index(s.drop_first(), reserve) == -1 {
        -1
    } else {
        liquidity_index(s.drop_first(), reserve) + 1
    }
}

/// `collateral_index` finds the first matching entry, and -1 only when no
/// entry matches.
pub proof fn lemma_collateral_index(s: Seq<ObligationCollateral>, reserve: Address)
    ensures
        collateral_index(s, reserve) == -1 ==> forall|j: int|
            0 <= j < s.len() ==> s[j].deposit_reserve != reserve,
        collateral_index(s, reserve) != -1 ==> 0 <= collateral_index(s, reserve) < s.len()
            && s[collateral_index(s, reserve)].deposit_reserve == reserve && (forall|j: int|
            0 <= j < collateral_index(s, reserve) ==> s[j].deposit_reserve != reserve),
    decreases s.len(),
{
    if s.len() != 0 && s[0].deposit_reserve != reserve {
        let rest = collateral_index(s.drop_first(), reserve);
        lemma_collateral_index(s.drop_first(), reserve);
        if rest == -1 {
            assert forall|j: int| 0 <= j < s.len() implies s[j].deposit_reserve != reserve by {
                if j > 0 {
                    assert(s.drop_first()[j - 1] == s[j]);
                }
            }
        } else {
            assert(s.drop_first()[rest] == s[rest + 1]);
            assert forall|j: int| 0 <= j < rest + 1 implies s[j].deposit_reserve != reserve by {
                if j > 0 {
                    assert(s.drop_first()[j - 1] == s[j]);
                }
            }
        }
    }
}

/// `liquidity_index` finds the first matching entry, and -1 only when no
/// entry matches.
pub proof fn lemma_liquidity_index(s: Seq<ObligationLiquidity>, reserve: Address)
    ensures
        liquidity_index(s, reserve) == -1 ==> forall|j: int|
            0 <= j < s.len() ==> s[j].borrow_reserve != reserve,
        liquidity_index(s, reserve) != -1 ==> 0 <= liquidity_index(s, reserve) < s.len()
            && s[liquidity_index(s, reserve)].borrow_reserve == reserve && (forall|j: int|
            0 <= j < liquidity_index(s, reserve) ==> s[j].borrow_reserve != reserve),
    decreases s.len(),
{
    if s.len() != 0 && s[0].borrow_reserve != reserve {
        let rest = liquidity_index(s.drop_first(), reserve);
        lemma_liquidity_index(s.drop_first(), reserve);
        if rest == -1 {
            assert forall|j: int| 0 <= j < s.len() implies s[j].borrow_reserve != reserve by {
                if j > 0 {
                    assert(s.drop_first()[j - 1] == s[j]);
                }
            }
        } else {
            assert(s.drop_first()[rest] == s[rest + 1]);
            assert forall|j: int| 0 <= j < rest + 1 implies s[j].borrow_reserve != reserve by {
                if j > 0 {
                    assert(s.drop_first()[j - 1] == s[j]);
                }
            }
        }
    }
}

impl ObligationCollateral {
    /// Fresh, empty entry for `deposit_reserve`.
    pub fn new(deposit_reserve: Address) -> (r: Self)
        ensures
            r.deposit_reserve == deposit_reserve,
            r.deposited_amount.as_nat() == 0,
            r.market_value.val() == 0,
    {
        Self {
            deposit_reserve,
            deposited_amount: Uint256::zero(),
            market_value: Decimal::zero(),
        }
    }

    /// Add to the deposited amount, failing on overflow.
    pub fn deposit(&mut self, amount: Uint256) -> (r: Result<(), LendingError>)
        ensures
            old(self).deposited_amount.as_nat() + amount.as_nat() < u256_limit() ==> (r is Ok
                && *final(self) == (ObligationCollateral {
                deposited_amount: final(self).deposited_amount,
                ..*old(self)
            }) && final(self).deposited_amount.as_nat() == old(self).deposited_amount.as_nat()
                + amount.as_nat()),
            old(self).deposited_amount.as_nat() + amount.as_nat() >= u256_limit() ==> (r
                matches Err(e) && e == LendingError::MathOverflow && *final(self) == *old(self)),
    {
        self.deposited_amount = self.deposited_amount.try_add(amount)?;
        Ok(())
    }

    /// Take from the deposited amount; the amount must not exceed it.
    pub fn withdraw(&mut self, amount: Uint256) -> (r: Result<(), LendingError>)
        ensures
            amount.as_nat() > old(self).deposited_amount.as_nat() ==> (r matches Err(e) && e
                == LendingError::InvalidObligationCollateral && *final(self) == *old(self)),
            amount.as_nat() <= old(self).deposited_amount.as_nat() ==> (r is Ok && *final(self)
                == (ObligationCollateral {
                deposited_amount: final(self).deposited_amount,
                ..*old(self)
            }) && final(self).deposited_amount.as_nat() == old(self).deposited_amount.as_nat()
                - amount.as_nat()),
    {
        if amount.gt(&self.deposited_amount) {
            return Err(LendingError::InvalidObligationCollateral);
        }
        self.deposited_amount = self.deposited_amount.try_sub(amount)?;
        Ok(())
    }
}

impl ObligationLiquidity {
    /// Fresh, empty entry for `borrow_reserve`, with the rate snapshot at
    /// one.
    pub fn new(borrow_reserve: Address) -> (r: Self)
        ensures
            r.borrow_reserve == borrow_reserve,
            r.cumulative_borrow_rate_wads.val() == crate::math::common::WAD,
            r.borrowed_amount_wads.val() == 0,
            r.market_value.val() == 0,
    {
        Self {
            borrow_reserve,
            cumulative_borrow_rate_wads: Decimal::one(),
            borrowed_amount_wads: Decimal::zero(),
            market_value: Decimal::zero(),
        }
    }

    /// Settle part of the debt; the settle amount must not exceed it.
    pub fn repay(&mut self, settle_amount: Decimal) -> (r: Result<(), LendingError>)
        ensures
            settle_amount.val() > old(self).borrowed_amount_wads.val() ==> (r matches Err(e)
                && e == LendingError::MathOverflow && *final(self) == *old(self)),
            settle_amount.val() <= old(self).borrowed_amount_wads.val() ==> (r is Ok && *final(self) == (ObligationLiquidity {
                borrowed_amount_wads: final(self).borrowed_amount_wads,
                ..*old(self)
            }) && final(self).borrowed_amount_wads.val() == old(self).borrowed_amount_wads.val()
                - settle_amount.val()),
    {
        if settle_amount.gt(&self.borrowed_amount_wads) {
            return Err(LendingError::MathOverflow);
        }
        self.borrowed_amount_wads = self.borrowed_amount_wads.try_sub(settle_amount)?;
        Ok(())
    }

    /// Add to the debt, failing on overflow.
    pub fn borrow(&mut self, borrow_amount: Decimal) -> (r: Result<(), LendingError>)
        ensures
            old(self).borrowed_amount_wads.val() + borrow_amount.val() < u256_limit() ==> (r
                is Ok && *final(self) == (ObligationLiquidity {
                borrowed_amount_wads: final(self).borrowed_amount_wads,
                ..*old(self)
            }) && final(self).borrowed_amount_wads.val() == old(self).borrowed_amount_wads.val()
                + borrow_amount.val()),
            old(self).borrowed_amount_wads.val() + borrow_amount.val() >= u256_limit() ==> (r
                matches Err(e) && e == LendingError::MathOverflow && *final(self) == *old(self)),
    {
        self.borrowed_amount_wads = self.borrowed_amount_wads.try_add(borrow_amount)?;
        Ok(())
    }

    /// Scale the debt by the growth of the cumulative-rate index since the
    /// stored snapshot, and advance the snapshot.  An index below the
    /// snapshot is a negative interest rate and is rejected.
    pub fn accrue_interest(&mut self, cumulative_borrow_rate_wads: Decimal) -> (r: Result<
        (),
        LendingError,
    >)
        ensures
            cumulative_borrow_rate_wads.val() < old(self).cumulative_borrow_rate_wads.val()
                ==> (r matches Err(e) && e == LendingError::NegativeInterestRate && *final(self)
                == *old(self)),
            cumulative_borrow_rate_wads.val() >= old(self).cumulative_borrow_rate_wads.val()
                && !wad_div_ok(cumulative_borrow_rate_wads.val(), old(self).cumulative_borrow_rate_wads.val()) ==> (r matches Err(e) && e
                == LendingError::MathOverflow && *final(self) == *old(self)),
            cumulative_borrow_rate_wads.val() >= old(self).cumulative_borrow_rate_wads.val()
                && wad_div_ok(cumulative_borrow_rate_wads.val(), old(self).cumulative_borrow_rate_wads.val()) && !wad_mul_ok(old(self).borrowed_amount_wads.val(), wad_div(cumulative_borrow_rate_wads.val(), old(self).cumulative_borrow_rate_wads.val())) ==> (r matches Err(e) && e
                == LendingError::MathOverflow && *final(self) == *old(self)),
            cumulative_borrow_rate_wads.val() >= old(self).cumulative_borrow_rate_wads.val()
                && wad_div_ok(cumulative_borrow_rate_wads.val(), old(self).cumulative_borrow_rate_wads.val()) && wad_mul_ok(old(self).borrowed_amount_wads.val(), wad_div(cumulative_borrow_rate_wads.val(), old(self).cumulative_borrow_rate_wads.val())) ==> (r is Ok && final(self).borrowed_amount_wads.val() == wad_mul(old(self).borrowed_amount_wads.val(), wad_div(
                cumulative_borrow_rate_wads.val(),
                old(self).cumulative_borrow_rate_wads.val(),
            )) && final(self).cumulative_borrow_rate_wads == cumulative_borrow_rate_wads && final(self).borrow_reserve == old(self).borrow_reserve && final(self).market_value == old(self).market_value),
    {
        if cumulative_borrow_rate_wads.lt(&self.cumulative_borrow_rate_wads) {
            return Err(LendingError::NegativeInterestRate);
        }
        let compounded_interest_rate: Decimal = cumulative_borrow_rate_wads.try_div(
            self.cumulative_borrow_rate_wads,
        )?;
        self.borrowed_amount_wads = self.borrowed_amount_wads.try_mul(compounded_interest_rate)?;
        self.cumulative_borrow_rate_wads = cumulative_borrow_rate_wads;
        Ok(())
    }
}

impl Obligation {
    /// Fresh position for `owner` in `lending_market`, stale until the first
    /// refresh.
    pub fn new(owner: Address, lending_market: Address, current_slot: u64) -> (r: Self)
        ensures
            r.version == 1,
            r.last_update_slot == current_slot,
            r.last_update_stale,
            r.lending_market == lending_market,
            r.owner == owner,
            r.deposits@.len() == 0,
            r.borrows@.len() == 0,
            r.deposited_value.val() == 0,
            r.borrowed_value.val() == 0,
            r.allowed_borrow_value.val() == 0,
            r.unhealthy_borrow_value.val() == 0,
    {
        Self {
            version: 1,
            last_update_slot: current_slot,
            last_update_stale: true,
            lending_market,
            owner,
            deposits: Vec::new(),
            borrows: Vec::new(),
            deposited_value: Decimal::zero(),
            borrowed_value: Decimal::zero(),
            allowed_borrow_value: Decimal::zero(),
            unhealthy_borrow_value: Decimal::zero(),
        }
    }

    /// Current loan-to-value of the position: borrowed value over deposited
    /// value, zero when nothing is deposited.
    pub fn loan_to_value(&self) -> (r: Result<Decimal, LendingError>)
        ensures
            self.deposited_value.val() == 0 ==> (r matches Ok(d) && d.val() == 0),
            self.deposited_value.val() != 0 && wad_div_ok(self.borrowed_value.val(),
                self.deposited_value.val()) ==> (r matches Ok(d) && d.val() == wad_div(
                self.borrowed_value.val(), self.deposited_value.val())),
            self.deposited_value.val() != 0 && !wad_div_ok(self.borrowed_value.val(),
                self.deposited_value.val()) ==> (r matches Err(e) && e
                == LendingError::MathOverflow),
    {
        if self.deposited_value.is_zero() {
            return Ok(Decimal::zero());
        }
        self.borrowed_value.try_div(self.deposited_value)
    }

    /// Settle debt against the borrow entry at `liquidity_index`, removing
    /// the entry when it is settled in full.
    pub fn repay(&mut self, settle_amount: Decimal, liquidity_index: usize) -> (r: Result<
        (),
        LendingError,
    >)
        ensures
            liquidity_index >= old(self).borrows@.len() ==> (r matches Err(e) && e
                == LendingError::InvalidObligationLiquidity && *final(self) == *old(self)),
            liquidity_index < old(self).borrows@.len() && settle_amount.val() == old(self).borrows@[liquidity_index as int].borrowed_amount_wads.val() ==> (r is Ok && final(self).borrows@ == old(self).borrows@.remove(liquidity_index as int) && *final(self) == (
            Obligation { borrows: final(self).borrows, ..*old(self) })),
            liquidity_index < old(self).borrows@.len() && settle_amount.val() > old(self).borrows@[liquidity_index as int].borrowed_amount_wads.val() ==> (r matches Err(e)
                && e == LendingError::MathOverflow && *final(self) == *old(self)),
            liquidity_index < old(self).borrows@.len() && settle_amount.val() < old(self).borrows@[liquidity_index as int].borrowed_amount_wads.val() ==> (r is Ok && final(self).borrows@ == old(self).borrows@.update(liquidity_index as int, (ObligationLiquidity {
                borrowed_amount_wads: final(self).borrows@[liquidity_index as int].borrowed_amount_wads,
                ..old(self).borrows@[liquidity_index as int]
            })) && final(self).borrows@[liquidity_index as int].borrowed_amount_wads.val() == old(self).borrows@[liquidity_index as int].borrowed_amount_wads.val() - settle_amount.val()
                && *final(self) == (Obligation { borrows: final(self).borrows, ..*old(self) })),
    {
        if liquidity_index >= self.borrows.len() {
            return Err(LendingError::InvalidObligationLiquidity);
        }
        proof {
            settle_amount.0.lemma_cmp(self.borrows@[liquidity_index as int].borrowed_amount_wads.0);
        }
        if settle_amount == self.borrows[liquidity_index].borrowed_amount_wads {
            self.borrows.remove(liquidity_index);
        } else {
            let mut entry = self.borrows[liquidity_index];
            entry.repay(settle_amount)?;
            self.borrows.set(liquidity_index, entry);
        }
        Ok(())
    }

    /// Take collateral from the entry at `collateral_index`, removing the
    /// entry when it is emptied.
    pub fn withdraw(&mut self, withdraw_amount: Uint256, collateral_index: usize) -> (r: Result<
        (),
        LendingError,
    >)
        ensures
            collateral_index >= old(self).deposits@.len() ==> (r matches Err(e) && e
                == LendingError::InvalidObligationCollateral && *final(self) == *old(self)),
            collateral_index < old(self).deposits@.len() && withdraw_amount.as_nat() == old(self).deposits@[collateral_index as int].deposited_amount.as_nat() ==> (r is Ok && final(self).deposits@ == old(self).deposits@.remove(collateral_index as int) && *final(self) == (
            Obligation { deposits: final(self).deposits, ..*old(self) })),
            collateral_index < old(self).deposits@.len() && withdraw_amount.as_nat() > old(self).deposits@[collateral_index as int].deposited_amount.as_nat() ==> (r matches Err(e)
                && e == LendingError::InvalidObligationCollateral && *final(self) == *old(self)),
            collateral_index < old(self).deposits@.len() && withdraw_amount.as_nat() < old(self).deposits@[collateral_index as int].deposited_amount.as_nat() ==> (r is Ok && final(self).deposits@ == old(self).deposits@.update(collateral_index as int, (
            ObligationCollateral {
                deposited_amount: final(self).deposits@[collateral_index as int].deposited_amount,
                ..old(self).deposits@[collateral_index as int]
            })) && final(self).deposits@[collateral_index as int].deposited_amount.as_nat() == old(self).deposits@[collateral_index as int].deposited_amount.as_nat()
                - withdraw_amount.as_nat() && *final(self) == (Obligation {
                deposits: final(self).deposits,
                ..*old(self)
            })),
    {
        if collateral_index >= self.deposits.len() {
            return Err(LendingError::InvalidObligationCollateral);
        }
        proof {
            withdraw_amount.lemma_cmp(
                self.deposits@[collateral_index as int].deposited_amount,
            );
        }
        if withdraw_amount == self.deposits[collateral_index].deposited_amount {
            self.deposits.remove(collateral_index);
        } else {
            let mut entry = self.deposits[collateral_index];
            entry.withdraw(withdraw_amount)?;
            self.deposits.set(collateral_index, entry);
        }
        Ok(())
    }

    /// Largest collateral value that may leave the position: the full
    /// deposited value when nothing counts toward borrow capacity, else the
    /// unused capacity divided by the collateral's loan-to-value.
    pub fn max_withdraw_value(&self, withdraw_collateral_ltv: Rate) -> (r: Result<
        Decimal,
        LendingError,
    >)
        ensures
            self.allowed_borrow_value.val() <= self.borrowed_value.val() ==> (r matches Ok(d)
                && d.val() == 0),
            self.allowed_borrow_value.val() > self.borrowed_value.val()
                && withdraw_collateral_ltv.val() == 0 ==> (r matches Ok(d) && d.val()
                == self.deposited_value.val()),
            self.allowed_borrow_value.val() > self.borrowed_value.val()
                && withdraw_collateral_ltv.val() != 0 && wad_div_ok((self.allowed_borrow_value.val()
                - self.borrowed_value.val()) as nat, withdraw_collateral_ltv.val()) ==> (r
                matches Ok(d) && d.val() == wad_div((self.allowed_borrow_value.val()
                - self.borrowed_value.val()) as nat, withdraw_collateral_ltv.val())),
            self.allowed_borrow_value.val() > self.borrowed_value.val()
                && withdraw_collateral_ltv.val() != 0 && !wad_div_ok((
            self.allowed_borrow_value.val() - self.borrowed_value.val()) as nat,
                withdraw_collateral_ltv.val()) ==> (r matches Err(e) && e
                == LendingError::MathOverflow),
    {
        if self.allowed_borrow_value.le(&self.borrowed_value) {
            return Ok(Decimal::zero());
        }
        if withdraw_collateral_ltv.is_zero() {
            return Ok(self.deposited_value);
        }
        let ltv_decimal: Decimal = Decimal::from_rate(withdraw_collateral_ltv);
        let headroom = self.allowed_borrow_value.try_sub(self.borrowed_value)?;
        headroom.try_div(ltv_decimal)
    }

    /// Unused borrow capacity; fails when the position is over its limit.
    pub fn remaining_borrow_value(&self) -> (r: Result<Decimal, LendingError>)
        ensures
            self.allowed_borrow_value.val() >= self.borrowed_value.val() ==> (r matches Ok(d)
                && d.val() == self.allowed_borrow_value.val() - self.borrowed_value.val()),
            self.allowed_borrow_value.val() < self.borrowed_value.val() ==> (r matches Err(e)
                && e == LendingError::MathOverflow),
    {
        self.allowed_borrow_value.try_sub(self.borrowed_value)
    }

    /// Index of the collateral entry for `deposit_reserve`, adding an empty
    /// entry when the reserve limit allows it.
    #[verifier::loop_isolation(false)]
    pub fn find_or_add_collateral_to_deposits(&mut self, deposit_reserve: Address) -> (r: Result<
        usize,
        LendingError,
    >)
        ensures
            collateral_index(old(self).deposits@, deposit_reserve) >= 0 ==> (r matches Ok(i)
                && i == collateral_index(old(self).deposits@, deposit_reserve) && *final(self)
                == *old(self)),
            collateral_index(old(self).deposits@, deposit_reserve) == -1 && old(self).deposits@.len() + old(self).borrows@.len() >= MAX_OBLIGATION_RESERVES ==> (r
                matches Err(e) && e == LendingError::ObligationReserveLimit && *final(self)
                == *old(self)),
            collateral_index(old(self).deposits@, deposit_reserve) == -1 && old(self).deposits@.len() + old(self).borrows@.len() < MAX_OBLIGATION_RESERVES ==> (r
                matches Ok(i) && i == old(self).deposits@.len() && final(self).deposits@ == old(self).deposits@.push((ObligationCollateral {
                deposit_reserve,
                deposited_amount: (Uint256 { hi: 0, lo: 0 }),
                market_value: Decimal((Uint256 { hi: 0, lo: 0 })),
            })) && *final(self) == (Obligation { deposits: final(self).deposits, ..*old(self) })),
    {
        proof {
            lemma_collateral_index(self.deposits@, deposit_reserve);
        }
        let n = self.deposits.len();
        let mut i: usize = 0;
        while i < n
            invariant
                n == self.deposits@.len(),
                i <= n,
                forall|j: int| 0 <= j < i ==> self.deposits@[j].deposit_reserve != deposit_reserve,
                collateral_index(self.deposits@, deposit_reserve) >= 0 ==> collateral_index(
                    self.deposits@,
                    deposit_reserve,
                ) >= i,
            decreases n - i,
        {
            if self.deposits[i].deposit_reserve == deposit_reserve {
                return Ok(i);
            }
            i += 1;
        }
        if self.deposits.len() >= MAX_OBLIGATION_RESERVES || MAX_OBLIGATION_RESERVES
            - self.deposits.len() <= self.borrows.len() {
            return Err(LendingError::ObligationReserveLimit);
        }
        let entry = ObligationCollateral::new(deposit_reserve);
        proof {
            entry.deposited_amount.lemma_cmp((Uint256 { hi: 0, lo: 0 }));
            entry.market_value.0.lemma_cmp((Uint256 { hi: 0, lo: 0 }));
        }
        self.deposits.push(entry);
        Ok(n)
    }

    /// Find the collateral entry for `deposit_reserve`.
    #[verifier::loop_isolation(false)]
    pub fn find_collateral_in_deposits(&self, deposit_reserve: Address) -> (r: Result<
        (ObligationCollateral, usize),
        LendingError,
    >)
        ensures
            self.deposits@.len() == 0 ==> (r matches Err(e) && e
                == LendingError::ObligationDepositsEmpty),
            self.deposits@.len() > 0 && collateral_index(self.deposits@, deposit_reserve) == -1
                ==> (r matches Err(e) && e == LendingError::InvalidObligationCollateral),
            self.deposits@.len() > 0 && collateral_index(self.deposits@, deposit_reserve) >= 0
                ==> (r matches Ok(p) && p.1 == collateral_index(self.deposits@, deposit_reserve)
                && p.0 == self.deposits@[p.1 as int]),
    {
        proof {
            lemma_collateral_index(self.deposits@, deposit_reserve);
        }
        if self.deposits.len() == 0 {
            return Err(LendingError::ObligationDepositsEmpty);
        }
        let n = self.deposits.len();
        let mut i: usize = 0;
        while i < n
            invariant
                n == self.deposits@.len(),
                i <= n,
                forall|j: int| 0 <= j < i ==> self.deposits@[j].deposit_reserve != deposit_reserve,
                collateral_index(self.deposits@, deposit_reserve) >= 0 ==> collateral_index(
                    self.deposits@,
                    deposit_reserve,
                ) >= i,
            decreases n - i,
        {
            if self.deposits[i].deposit_reserve == deposit_reserve {
                return Ok((self.deposits[i], i));
            }
            i += 1;
        }
        Err(LendingError::InvalidObligationCollateral)
    }

    /// Index of the borrow entry for `borrow_reserve`, adding an empty entry
    /// when the reserve limit allows it.
    #[verifier::loop_isolation(false)]
    pub fn find_or_add_liquidity_to_borrows(&mut self, borrow_reserve: Address) -> (r: Result<
        usize,
        LendingError,
    >)
        ensures
            liquidity_index(old(self).borrows@, borrow_reserve) >= 0 ==> (r matches Ok(i) && i
                == liquidity_index(old(self).borrows@, borrow_reserve) && *final(self) == *old(self)),
            liquidity_index(old(self).borrows@, borrow_reserve) == -1 && old(self).deposits@.len() + old(self).borrows@.len() >= MAX_OBLIGATION_RESERVES ==> (r
                matches Err(e) && e == LendingError::ObligationReserveLimit && *final(self)
                == *old(self)),
            liquidity_index(old(self).borrows@, borrow_reserve) == -1 && old(self).deposits@.len()
                + old(self).borrows@.len() < MAX_OBLIGATION_RESERVES ==> (r matches Ok(i) && i
                == old(self).borrows@.len() && final(self).borrows@ == old(self).borrows@.push((
            ObligationLiquidity {
                borrow_reserve,
                cumulative_borrow_rate_wads: Decimal(
                    (Uint256 { hi: 0, lo: crate::math::common::WAD as u128 }),
                ),
                borrowed_amount_wads: Decimal((Uint256 { hi: 0, lo: 0 })),
                market_value: Decimal((Uint256 { hi: 0, lo: 0 })),
            })) && *final(self) == (Obligation { borrows: final(self).borrows, ..*old(self) })),
    {
        proof {
            lemma_liquidity_index(self.borrows@, borrow_reserve);
        }
        let n = self.borrows.len();
        let mut i: usize = 0;
        while i < n
            invariant
                n == self.borrows@.len(),
                i <= n,
                forall|j: int| 0 <= j < i ==> self.borrows@[j].borrow_reserve != borrow_reserve,
                liquidity_index(self.borrows@, borrow_reserve) >= 0 ==> liquidity_index(
                    self.borrows@,
                    borrow_reserve,
                ) >= i,
            decreases n - i,
        {
            if self.borrows[i].borrow_reserve == borrow_reserve {
                return Ok(i);
            }
            i += 1;
        }
        if self.deposits.len() >= MAX_OBLIGATION_RESERVES || MAX_OBLIGATION_RESERVES
            - self.deposits.len() <= self.borrows.len() {
            return Err(LendingError::ObligationReserveLimit);
        }
        let entry = ObligationLiquidity::new(borrow_reserve);
        proof {
            entry.borrowed_amount_wads.0.lemma_cmp((Uint256 { hi: 0, lo: 0 }));
            entry.market_value.0.lemma_cmp((Uint256 { hi: 0, lo: 0 }));
            entry.cumulative_borrow_rate_wads.0.lemma_cmp(
                (Uint256 { hi: 0, lo: crate::math::common::WAD as u128 }),
            );
        }
        self.borrows.push(entry);
        Ok(n)
    }

    /// Find the borrow entry for `borrow_reserve`.
    #[verifier::loop_isolation(false)]
    pub fn find_liquidity_in_borrows(&self, borrow_reserve: Address) -> (r: Result<
        (ObligationLiquidity, usize),
        LendingError,
    >)
        ensures
            self.borrows@.len() == 0 ==> (r matches Err(e) && e
                == LendingError::ObligationBorrowsEmpty),
            self.borrows@.len() > 0 && liquidity_index(self.borrows@, borrow_reserve) == -1
                ==> (r matches Err(e) && e == LendingError::InvalidObligationLiquidity),
            self.borrows@.len() > 0 && liquidity_index(self.borrows@, borrow_reserve) >= 0 ==> (
            r matches Ok(p) && p.1 == liquidity_index(self.borrows@, borrow_reserve) && p.0
                == self.borrows@[p.1 as int]),
    {
        proof {
            lemma_liquidity_index(self.borrows@, borrow_reserve);
        }
        if self.borrows.len() == 0 {
            return Err(LendingError::ObligationBorrowsEmpty);
        }
        let n = self.borrows.len();
        let mut i: usize = 0;
        while i < n
            invariant
                n == self.borrows@.len(),
                i <= n,
                forall|j: int| 0 <= j < i ==> self.borrows@[j].borrow_reserve != borrow_reserve,
                liquidity_index(self.borrows@, borrow_reserve) >= 0 ==> liquidity_index(
                    self.borrows@,
                    borrow_reserve,
                ) >= i,
            decreases n - i,
        {
            if self.borrows[i].borrow_reserve == borrow_reserve {
                return Ok((self.borrows[i], i));
            }
            i += 1;
        }
        Err(LendingError::InvalidObligationLiquidity)
    }
}

} // verus!
