use nova_lending::Address;
use nova_lending::error::LendingError;
use nova_lending::math::common::WAD;
use nova_lending::math::uint256::Uint256;
use nova_lending::math::{Decimal, Rate};
use nova_lending::state::last_update::{LastUpdateStorage, STALE_AFTER_SLOTS_ELAPSED};
use nova_lending::state::lending_market::{InitLendingMarketParams, LendingMarketModule};
use nova_lending::state::obligation::{
    Obligation, ObligationCollateral, ObligationLiquidity, MAX_OBLIGATION_RESERVES,
};
use nova_lending::state::{INITIAL_COLLATERAL_RATE, INITIAL_COLLATERAL_RATIO};

#[test]
fn initial_collateral_rate_sanity() {
    assert_eq!(INITIAL_COLLATERAL_RATE, INITIAL_COLLATERAL_RATIO as u128 * WAD as u128);
}

#[test]
fn test_last_update_lifecycle() {
    let mut last = LastUpdateStorage::new(5);
    assert_eq!(last.slot, 5);
    assert!(last.stale);
    last.update_slot(7);
    assert_eq!(last.slot, 7);
    assert!(!last.stale);
    // fresh at the recorded slot, stale once the clock advances far enough
    assert_eq!(last.is_stale(7).unwrap(), false);
    assert_eq!(last.is_stale(7 + STALE_AFTER_SLOTS_ELAPSED).unwrap(), true);
    assert_eq!(last.slots_elapsed(10).unwrap(), 3);
    assert_eq!(last.slots_elapsed(6), Err(LendingError::MathOverflow));
    last.mark_stale();
    assert!(last.stale);
    assert_eq!(last.is_stale(7).unwrap(), true);
    let def = LastUpdateStorage::default();
    assert_eq!(def.slot, 0);
    assert!(def.stale);
}

#[test]
fn test_lending_market_init_and_getters() {
    let mut market = LendingMarketModule::default();
    assert_eq!(market.get_version(), 0);
    market.init(InitLendingMarketParams {
        bump_seed: 7,
        owner: [1; 32],
        quote_currency: [2; 32],
        token_program_id: [3; 32],
        oracle_program_id: [4; 32],
    });
    assert_eq!(market.get_version(), 1);
    assert_eq!(market.get_bump_seed(), 7);
    assert_eq!(market.get_owner(), [1; 32]);
    assert_eq!(market.get_quote_currency(), [2; 32]);
    assert_eq!(market.get_token_program_id(), [3; 32]);
    assert_eq!(market.get_oracle_program_id(), [4; 32]);
}

fn test_obligation() -> Obligation {
    Obligation::new(Address(9), Address(1), 3)
}

#[test]
fn test_obligation_collateral_deposit_withdraw() {
    let mut entry = ObligationCollateral::new(Address(2));
    entry.deposit(Uint256::from_u64(100)).unwrap();
    entry.deposit(Uint256::from_u64(20)).unwrap();
    assert_eq!(entry.deposited_amount, Uint256::from_u64(120));
    entry.withdraw(Uint256::from_u64(50)).unwrap();
    assert_eq!(entry.deposited_amount, Uint256::from_u64(70));
    assert_eq!(
        entry.withdraw(Uint256::from_u64(71)),
        Err(LendingError::InvalidObligationCollateral)
    );
    let mut full = ObligationCollateral::new(Address(2));
    full.deposited_amount = Uint256::max_value();
    assert_eq!(full.deposit(Uint256::from_u64(1)), Err(LendingError::MathOverflow));
}

#[test]
fn test_obligation_liquidity_accrue_interest() {
    let mut entry = ObligationLiquidity::new(Address(2));
    entry.borrowed_amount_wads = Decimal::from_u64(100);
    // index below the snapshot: negative interest, rejected
    let below = Decimal::from_scaled_val(WAD as u128 / 2);
    assert_eq!(entry.accrue_interest(below), Err(LendingError::NegativeInterestRate));
    assert_eq!(entry.borrowed_amount_wads, Decimal::from_u64(100));
    // equal index: debt unchanged
    entry.accrue_interest(Decimal::one()).unwrap();
    assert_eq!(entry.borrowed_amount_wads, Decimal::from_u64(100));
    // greater index: debt grows by exactly the index ratio
    let one_point_one = Decimal::from_scaled_val(WAD as u128 + WAD as u128 / 10);
    entry.accrue_interest(one_point_one).unwrap();
    assert_eq!(entry.borrowed_amount_wads, Decimal::from_u64(110));
    assert_eq!(entry.cumulative_borrow_rate_wads, one_point_one);
}

#[test]
fn test_obligation_repay_and_remove() {
    let mut ob = test_obligation();
    let idx = ob.find_or_add_liquidity_to_borrows(Address(5)).unwrap();
    ob.borrows[idx].borrowed_amount_wads = Decimal::from_u64(10);
    // partial repayment keeps the entry
    ob.repay(Decimal::from_u64(4), idx).unwrap();
    assert_eq!(ob.borrows[idx].borrowed_amount_wads, Decimal::from_u64(6));
    // repaying more than owed is rejected
    assert_eq!(
        ob.repay(Decimal::from_u64(7), idx),
        Err(LendingError::MathOverflow)
    );
    // full settlement removes the entry
    ob.repay(Decimal::from_u64(6), idx).unwrap();
    assert!(ob.borrows.is_empty());
    assert_eq!(
        ob.repay(Decimal::from_u64(1), 0),
        Err(LendingError::InvalidObligationLiquidity)
    );
}

#[test]
fn test_obligation_withdraw_and_remove() {
    let mut ob = test_obligation();
    let idx = ob.find_or_add_collateral_to_deposits(Address(5)).unwrap();
    ob.deposits[idx].deposited_amount = Uint256::from_u64(10);
    ob.withdraw(Uint256::from_u64(4), idx).unwrap();
    assert_eq!(ob.deposits[idx].deposited_amount, Uint256::from_u64(6));
    assert_eq!(
        ob.withdraw(Uint256::from_u64(7), idx),
        Err(LendingError::InvalidObligationCollateral)
    );
    ob.withdraw(Uint256::from_u64(6), idx).unwrap();
    assert!(ob.deposits.is_empty());
    assert_eq!(
        ob.withdraw(Uint256::from_u64(1), 0),
        Err(LendingError::InvalidObligationCollateral)
    );
}

#[test]
fn test_obligation_reserve_limit() {
    let mut ob = test_obligation();
    for i in 0..MAX_OBLIGATION_RESERVES {
        ob.find_or_add_collateral_to_deposits(Address(i as u64)).unwrap();
    }
    assert_eq!(
        ob.find_or_add_collateral_to_deposits(Address(100)),
        Err(LendingError::ObligationReserveLimit)
    );
    assert_eq!(
        ob.find_or_add_liquidity_to_borrows(Address(100)),
        Err(LendingError::ObligationReserveLimit)
    );
    // an existing entry is still found
    assert_eq!(ob.find_or_add_collateral_to_deposits(Address(3)).unwrap(), 3);
}

#[test]
fn test_obligation_find_entries() {
    let mut ob = test_obligation();
    assert_eq!(
        ob.find_collateral_in_deposits(Address(5)).map(|p| p.1),
        Err(LendingError::ObligationDepositsEmpty)
    );
    assert_eq!(
        ob.find_liquidity_in_borrows(Address(5)).map(|p| p.1),
        Err(LendingError::ObligationBorrowsEmpty)
    );
    ob.find_or_add_collateral_to_deposits(Address(5)).unwrap();
    ob.find_or_add_liquidity_to_borrows(Address(6)).unwrap();
    assert_eq!(ob.find_collateral_in_deposits(Address(5)).unwrap().1, 0);
    assert_eq!(ob.find_liquidity_in_borrows(Address(6)).unwrap().1, 0);
    assert_eq!(
        ob.find_collateral_in_deposits(Address(6)).map(|p| p.1),
        Err(LendingError::InvalidObligationCollateral)
    );
    assert_eq!(
        ob.find_liquidity_in_borrows(Address(5)).map(|p| p.1),
        Err(LendingError::InvalidObligationLiquidity)
    );
}

#[test]
fn test_obligation_valuation_queries() {
    let mut ob = test_obligation();
    assert_eq!(ob.loan_to_value().unwrap(), Decimal::zero());
    ob.deposited_value = Decimal::from_u64(1000);
    ob.borrowed_value = Decimal::from_u64(250);
    ob.allowed_borrow_value = Decimal::from_u64(500);
    // 250 / 1000 == 0.25
    assert_eq!(
        ob.loan_to_value().unwrap(),
        Decimal::from_scaled_val(WAD as u128 / 4)
    );
    assert_eq!(ob.remaining_borrow_value().unwrap(), Decimal::from_u64(250));
    // with unused capacity, a zero loan-to-value frees the full deposit
    assert_eq!(ob.max_withdraw_value(Rate::zero()).unwrap(), Decimal::from_u64(1000));
    // headroom 250 at a 50% ratio frees 500 of value
    assert_eq!(
        ob.max_withdraw_value(Rate::from_percent(50)).unwrap(),
        Decimal::from_u64(500)
    );
    ob.borrowed_value = Decimal::from_u64(600);
    assert_eq!(ob.remaining_borrow_value(), Err(LendingError::MathOverflow));
    // over the limit: nothing may leave, whatever the ratio
    assert_eq!(ob.max_withdraw_value(Rate::from_percent(50)).unwrap(), Decimal::zero());
    assert_eq!(ob.max_withdraw_value(Rate::zero()).unwrap(), Decimal::zero());
}
