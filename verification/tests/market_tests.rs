use nova_lending::Address;
use nova_lending::error::LendingError;
use nova_lending::math::common::WAD;
use nova_lending::math::uint256::Uint256;
use nova_lending::math::Decimal;
use nova_lending::processor::{
    Collateral, InitReserveParams, LastUpdate, Liquidity, NewReserveCollateralParams,
    NewReserveLiquidityParams, NovaLending, Obligation, Reserve, ReserveCollateral,
    ReserveConfig, ReserveFees, ReserveLiquidity,
};

const MARKET: Address = Address(1000);
const OWNER: Address = Address(1001);
const USER: Address = Address(1002);

fn fees() -> ReserveFees {
    ReserveFees {
        borrow_fee_wad: Uint256::zero(),
        flash_loan_fee_wad: Uint256::zero(),
        host_fee_percentage: 0,
    }
}

fn config(ltv: u8, threshold: u8) -> ReserveConfig {
    ReserveConfig {
        loan_to_value_ratio: ltv,
        liquidation_threshold: threshold,
        liquidation_bonus: 5,
        fees: fees(),
    }
}

fn new_market() -> NovaLending {
    NovaLending::init(MARKET, OWNER, [0; 32], Address(1), Address(2))
}

/// Price that values one raw unit of a 9-decimals token at one currency unit.
fn unit_price() -> Decimal {
    Decimal::from_u64(1_000_000_000)
}

fn market_with_reserve() -> (NovaLending, Address) {
    let mut market = new_market();
    market
        .init_reserve(OWNER, 0, unit_price(), Uint256::from_u64(1_000_000), config(50, 60))
        .unwrap();
    (market, Address(0))
}

#[test]
fn test_init_market_and_admin() {
    let mut market = new_market();
    assert_eq!(market.get_owner(), Some(OWNER));
    assert_eq!(market.get_reserve_count(), 0);
    assert_eq!(
        market.set_lending_market_owner(USER, USER),
        Err(LendingError::InvalidMarketOwner)
    );
    market.set_lending_market_owner(OWNER, USER).unwrap();
    assert_eq!(market.get_owner(), Some(USER));
}

#[test]
fn test_init_reserve_validation() {
    let mut market = new_market();
    assert_eq!(
        market.init_reserve(OWNER, 0, unit_price(), Uint256::zero(), config(50, 60)),
        Err(LendingError::InvalidAmount)
    );
    assert_eq!(
        market.init_reserve(OWNER, 0, unit_price(), Uint256::from_u64(1), config(101, 60)),
        Err(LendingError::InvalidConfig)
    );
    assert_eq!(
        market.init_reserve(USER, 0, unit_price(), Uint256::from_u64(1), config(50, 60)),
        Err(LendingError::InvalidMarketOwner)
    );
    market
        .init_reserve(OWNER, 0, unit_price(), Uint256::from_u64(1), config(50, 60))
        .unwrap();
    assert_eq!(market.get_reserve_count(), 1);
    assert!(market.get_reserve(Address(0)).is_some());
    assert!(market.get_reserve(Address(77)).is_none());
}

#[test]
fn test_modify_reserve_config() {
    let (mut market, key) = market_with_reserve();
    assert_eq!(
        market.modify_reserve_config(USER, key, config(40, 50)),
        Err(LendingError::InvalidMarketOwner)
    );
    assert_eq!(
        market.modify_reserve_config(OWNER, key, config(140, 50)),
        Err(LendingError::InvalidConfig)
    );
    assert_eq!(
        market.modify_reserve_config(OWNER, Address(9), config(40, 50)),
        Err(LendingError::InvalidAccountInput)
    );
    market.modify_reserve_config(OWNER, key, config(40, 50)).unwrap();
    assert_eq!(market.get_reserve(key).unwrap().config.loan_to_value_ratio, 40);
}

#[test]
fn test_exchange_rate_bootstrap_mint() {
    // a reserve with zero collateral supply mints exactly the deposit
    let (mut market, key) = market_with_reserve();
    let minted = market
        .deposit_reserve_liquidity(key, Uint256::from_u64(1_000_000), 0)
        .unwrap();
    assert_eq!(minted, Uint256::from_u64(1_000_000));
}

#[test]
fn test_deposit_reserve_liquidity_errors() {
    let (mut market, key) = market_with_reserve();
    assert_eq!(
        market.deposit_reserve_liquidity(key, Uint256::zero(), 0),
        Err(LendingError::InvalidAmount)
    );
    assert_eq!(
        market.deposit_reserve_liquidity(Address(9), Uint256::from_u64(5), 0),
        Err(LendingError::InvalidAccountInput)
    );
    market.deposit_reserve_liquidity(key, Uint256::from_u64(5), 0).unwrap();
    // the deposit marked the reserve stale; another one must wait for a refresh
    assert_eq!(
        market.deposit_reserve_liquidity(key, Uint256::from_u64(5), 0),
        Err(LendingError::ReserveStale)
    );
    market.refresh_reserve(key, 0, unit_price()).unwrap();
    market.deposit_reserve_liquidity(key, Uint256::from_u64(5), 0).unwrap();
}

#[test]
fn test_deposit_redeem_round_trip() {
    // an empty reserve: deposit then redeem returns exactly the deposit
    let mut reserve = Reserve::new(InitReserveParams {
        current_slot: 0,
        lending_market: MARKET,
        liquidity: ReserveLiquidity::new(NewReserveLiquidityParams {
            mint_pubkey: Address(10),
            mint_decimals: 9,
            supply_pubkey: Address(11),
            fee_receiver: OWNER,
            oracle_pubkey: Address(12),
            market_price: unit_price(),
            available_amount: Uint256::zero(),
            borrowed_amount_wads: Decimal::zero(),
            cumulative_borrow_rate_wads: Decimal::one(),
        }),
        collateral: ReserveCollateral::new(NewReserveCollateralParams {
            mint_pubkey: Address(13),
            supply_pubkey: Address(14),
            mint_total_supply: Uint256::zero(),
        }),
        config: config(50, 60),
    });
    let minted = reserve.deposit_liquidity(Uint256::from_u64(1000)).unwrap();
    assert_eq!(minted, Uint256::from_u64(1000));
    let redeemed = reserve.redeem_collateral(minted).unwrap();
    assert_eq!(redeemed, Uint256::from_u64(1000));
    assert!(reserve.collateral.mint_total_supply.is_zero());
    assert!(reserve.liquidity.available_amount.is_zero());
}

#[test]
fn test_redeem_insufficient_collateral() {
    let (mut market, key) = market_with_reserve();
    // a pool with liquidity but a tiny collateral supply
    market.reserves[0].1.collateral.mint_total_supply = Uint256::from_u64(10);
    assert_eq!(
        market.redeem_reserve_collateral(key, Uint256::from_u64(20), 0),
        Err(LendingError::InsufficientCollateral)
    );
}

#[test]
fn test_obligation_lifecycle_and_scenario() {
    // reserve with 9 decimals and a unit price; deposit 1,000,000 raw units
    let (mut market, key) = market_with_reserve();
    market.init_obligation(USER, 0).unwrap();
    assert_eq!(market.init_obligation(USER, 0), Err(LendingError::AlreadyInitialized));

    let minted = market
        .deposit_reserve_liquidity(key, Uint256::from_u64(1_000_000), 0)
        .unwrap();
    assert_eq!(minted, Uint256::from_u64(1_000_000));
    market.refresh_reserve(key, 0, unit_price()).unwrap();

    market.deposit_obligation_collateral(USER, key, minted, 0).unwrap();
    market.refresh_obligation(USER, 0).unwrap();

    // health invariant: the refreshed aggregates are ordered
    let ob = market.get_obligation(USER).unwrap();
    assert_eq!(ob.deposited_value, Decimal::from_u64(1_000_000));
    assert_eq!(ob.allowed_borrow_value, Decimal::from_u64(500_000));
    assert_eq!(ob.unhealthy_borrow_value, Decimal::from_u64(600_000));
    assert!(ob.allowed_borrow_value.0 <= ob.deposited_value.0);
    assert!(ob.unhealthy_borrow_value.0 >= ob.allowed_borrow_value.0);

    // borrow 400,000: a 1% fee of 4,000 leaves 396,000 received
    market
        .borrow_obligation_liquidity(USER, key, Uint256::from_u64(400_000), Uint256::zero(), 0)
        .unwrap();
    let ob = market.get_obligation(USER).unwrap();
    assert_eq!(ob.borrows.len(), 1);
    assert_eq!(ob.borrows[0].borrowed_amount_wads, Decimal::from_u64(400_000));
    let reserve = market.get_reserve(key).unwrap();
    assert_eq!(
        reserve.liquidity.borrowed_amount_wads,
        Decimal::from_u64(400_000)
    );

    // repaying the full 396,000 + 4,000 clears and removes the entry
    market.refresh_reserve(key, 0, unit_price()).unwrap();
    market.refresh_obligation(USER, 0).unwrap();
    market
        .repay_obligation_liquidity(USER, key, Uint256::from_u64(400_000), 0)
        .unwrap();
    let ob = market.get_obligation(USER).unwrap();
    assert!(ob.borrows.is_empty());
    let reserve = market.get_reserve(key).unwrap();
    assert!(reserve.liquidity.borrowed_amount_wads.is_zero());
}

#[test]
fn test_borrow_receive_amount_fee_split() {
    let (mut market, key) = market_with_reserve();
    let reserve = market.get_reserve(key).unwrap();
    let result = reserve
        .calculate_borrow(Uint256::from_u64(400_000), Decimal::from_u64(500_000))
        .unwrap();
    assert_eq!(result.borrow_amount, Decimal::from_u64(400_000));
    assert_eq!(result.receive_amount, Uint256::from_u64(396_000));
    assert_eq!(result.borrow_fee, Uint256::from_u64(4_000));
    assert_eq!(result.host_fee, Uint256::from_u64(400));
    // the sentinel draws the whole remaining capacity
    let result = reserve
        .calculate_borrow(Uint256::max_value(), Decimal::from_u64(500_000))
        .unwrap();
    assert_eq!(result.borrow_amount, Decimal::from_u64(500_000));
}

#[test]
fn test_borrow_errors() {
    let (mut market, key) = market_with_reserve();
    market.init_obligation(USER, 0).unwrap();
    assert_eq!(
        market.borrow_obligation_liquidity(
            USER,
            key,
            Uint256::zero(),
            Uint256::zero(),
            0
        ),
        Err(LendingError::InvalidAmount)
    );
    assert_eq!(
        market.borrow_obligation_liquidity(
            Address(7777),
            key,
            Uint256::from_u64(10),
            Uint256::zero(),
            0
        ),
        Err(LendingError::InvalidObligationOwner)
    );
    // no deposits at all
    market.refresh_obligation(USER, 0).unwrap();
    assert_eq!(
        market.borrow_obligation_liquidity(
            USER,
            key,
            Uint256::from_u64(10),
            Uint256::zero(),
            0
        ),
        Err(LendingError::ObligationDepositsEmpty)
    );
    // deposits but no remaining capacity
    let oidx = 0;
    market.obligations[oidx].1.deposits.push(Collateral {
        deposit_reserve: key,
        deposited_amount: Uint256::from_u64(100),
        market_value: Decimal::from_u64(100),
    });
    assert_eq!(
        market.borrow_obligation_liquidity(
            USER,
            key,
            Uint256::from_u64(10),
            Uint256::zero(),
            0
        ),
        Err(LendingError::BorrowTooLarge)
    );
    // capacity below one whole unit floors to a zero borrow
    market.obligations[oidx].1.allowed_borrow_value = Decimal::from_scaled_val(WAD as u128 / 2);
    assert_eq!(
        market.borrow_obligation_liquidity(
            USER,
            key,
            Uint256::from_u64(10),
            Uint256::zero(),
            0
        ),
        Err(LendingError::BorrowTooSmall)
    );
    // a maximum borrow under the slippage floor is rejected
    market.obligations[oidx].1.allowed_borrow_value = Decimal::from_u64(1000);
    assert_eq!(
        market.borrow_obligation_liquidity(
            USER,
            key,
            Uint256::max_value(),
            Uint256::from_u64(10_000),
            0
        ),
        Err(LendingError::ExceededSlippage)
    );
    // more than the pool holds
    market.obligations[oidx].1.allowed_borrow_value = Decimal::from_u64(100_000_000);
    assert_eq!(
        market.borrow_obligation_liquidity(
            USER,
            key,
            Uint256::from_u64(90_000_000),
            Uint256::zero(),
            0
        ),
        Err(LendingError::InsufficientLiquidity)
    );
}

#[test]
fn test_repay_errors() {
    let (mut market, key) = market_with_reserve();
    market.init_obligation(USER, 0).unwrap();
    assert_eq!(
        market.repay_obligation_liquidity(USER, key, Uint256::zero(), 0),
        Err(LendingError::InvalidAmount)
    );
    market.refresh_obligation(USER, 0).unwrap();
    assert_eq!(
        market.repay_obligation_liquidity(USER, key, Uint256::from_u64(10), 0),
        Err(LendingError::ObligationLiquidityEmpty)
    );
    // a sub-unit debt floors to a zero repayment
    market.obligations[0].1.borrows.push(Liquidity {
        borrow_reserve: key,
        borrowed_amount_wads: Decimal::from_scaled_val(WAD as u128 / 2),
        market_value: Decimal::zero(),
        cumulative_borrow_rate_wads: Decimal::one(),
    });
    assert_eq!(
        market.repay_obligation_liquidity(USER, key, Uint256::from_u64(10), 0),
        Err(LendingError::RepayTooSmall)
    );
}

#[test]
fn test_withdraw_collateral() {
    let (mut market, key) = market_with_reserve();
    market.init_obligation(USER, 0).unwrap();
    assert_eq!(
        market.withdraw_obligation_collateral(USER, key, Uint256::from_u64(10), 0),
        Err(LendingError::ObligationCollateralEmpty)
    );
    // no borrows: withdrawal is free up to the deposited amount
    market.obligations[0].1.deposits.push(Collateral {
        deposit_reserve: key,
        deposited_amount: Uint256::from_u64(100),
        market_value: Decimal::from_u64(100),
    });
    market.withdraw_obligation_collateral(USER, key, Uint256::from_u64(30), 0).unwrap();
    let ob = market.get_obligation(USER).unwrap();
    assert_eq!(ob.deposits[0].deposited_amount, Uint256::from_u64(70));
    // the sentinel takes everything and removes the entry
    market.obligations[0].1.last_update = LastUpdate { slot: 0, stale: false };
    market.withdraw_obligation_collateral(USER, key, Uint256::max_value(), 0).unwrap();
    assert!(market.get_obligation(USER).unwrap().deposits.is_empty());
}

#[test]
fn test_withdraw_collateral_with_borrows() {
    let (mut market, key) = market_with_reserve();
    market.init_obligation(USER, 0).unwrap();
    let ob = &mut market.obligations[0].1;
    ob.deposits.push(Collateral {
        deposit_reserve: key,
        deposited_amount: Uint256::from_u64(1000),
        market_value: Decimal::from_u64(1000),
    });
    ob.borrows.push(Liquidity {
        borrow_reserve: key,
        borrowed_amount_wads: Decimal::from_u64(400),
        market_value: Decimal::from_u64(400),
        cumulative_borrow_rate_wads: Decimal::one(),
    });
    ob.deposited_value = Decimal::from_u64(1000);
    ob.borrowed_value = Decimal::from_u64(400);
    ob.allowed_borrow_value = Decimal::from_u64(500);
    // headroom: 1000 * 50% - 400 = 100 of value; 200 tokens are worth 200
    assert_eq!(
        market.withdraw_obligation_collateral(USER, key, Uint256::from_u64(200), 0),
        Err(LendingError::WithdrawTooLarge)
    );
    market.withdraw_obligation_collateral(USER, key, Uint256::from_u64(50), 0).unwrap();
    assert_eq!(
        market.get_obligation(USER).unwrap().deposits[0].deposited_amount,
        Uint256::from_u64(950)
    );
}

#[test]
fn test_withdraw_too_small_and_deposits_zero() {
    let (mut market, key) = market_with_reserve();
    market.init_obligation(USER, 0).unwrap();
    let ob = &mut market.obligations[0].1;
    ob.deposits.push(Collateral {
        deposit_reserve: key,
        deposited_amount: Uint256::from_u64(1),
        market_value: Decimal::from_u64(1000),
    });
    ob.borrows.push(Liquidity {
        borrow_reserve: key,
        borrowed_amount_wads: Decimal::from_u64(400),
        market_value: Decimal::from_u64(400),
        cumulative_borrow_rate_wads: Decimal::one(),
    });
    ob.deposited_value = Decimal::from_u64(1000);
    ob.borrowed_value = Decimal::from_u64(400);
    ob.allowed_borrow_value = Decimal::from_u64(500);
    // the whole entry is one token worth 1000; a 100-value headroom frees
    // a tenth of a token, which floors to nothing
    assert_eq!(
        market.withdraw_obligation_collateral(USER, key, Uint256::max_value(), 0),
        Err(LendingError::WithdrawTooSmall)
    );
    market.obligations[0].1.deposited_value = Decimal::zero();
    assert_eq!(
        market.withdraw_obligation_collateral(USER, key, Uint256::from_u64(1), 0),
        Err(LendingError::ObligationDepositsZero)
    );
}

#[test]
fn test_deposit_obligation_collateral_gates() {
    let mut market = new_market();
    market
        .init_reserve(OWNER, 0, unit_price(), Uint256::from_u64(1_000), config(0, 60))
        .unwrap();
    let key = Address(0);
    market.init_obligation(USER, 0).unwrap();
    assert_eq!(
        market.deposit_obligation_collateral(USER, key, Uint256::from_u64(10), 0),
        Err(LendingError::ReserveCollateralDisabled)
    );
    market.modify_reserve_config(OWNER, key, config(50, 60)).unwrap();
    market.deposit_obligation_collateral(USER, key, Uint256::from_u64(10), 0).unwrap();
    let ob = market.get_obligation(USER).unwrap();
    assert_eq!(ob.deposits[0].deposited_amount, Uint256::from_u64(10));
    assert!(ob.last_update.stale);
}

#[test]
fn test_negative_interest_rejected_on_refresh() {
    let (mut market, key) = market_with_reserve();
    market.init_obligation(USER, 0).unwrap();
    // a snapshot above the reserve's index means the index went backwards
    market.obligations[0].1.borrows.push(Liquidity {
        borrow_reserve: key,
        borrowed_amount_wads: Decimal::from_u64(100),
        market_value: Decimal::zero(),
        cumulative_borrow_rate_wads: Decimal::from_u64(2),
    });
    assert_eq!(
        market.refresh_obligation(USER, 0),
        Err(LendingError::NegativeInterestRate)
    );
}

fn liquidation_market(borrowed: u64, collateral_value: u64) -> (NovaLending, Address) {
    let mut market = new_market();
    market
        .init_reserve(OWNER, 0, unit_price(), Uint256::from_u64(1_000_000), config(50, 60))
        .unwrap();
    let key = Address(0);
    // the pool must carry the debt being settled
    market.reserves[0].1.liquidity.borrowed_amount_wads = Decimal::from_u64(borrowed);
    let obligation = Obligation {
        lending_market: MARKET,
        owner: USER,
        deposits: vec![Collateral {
            deposit_reserve: key,
            deposited_amount: Uint256::from_u64(collateral_value),
            market_value: Decimal::from_u64(collateral_value),
        }],
        borrows: vec![Liquidity {
            borrow_reserve: key,
            borrowed_amount_wads: Decimal::from_u64(borrowed),
            market_value: Decimal::from_u64(borrowed),
            cumulative_borrow_rate_wads: Decimal::one(),
        }],
        deposited_value: Decimal::from_u64(1000),
        borrowed_value: Decimal::from_u64(borrowed),
        allowed_borrow_value: Decimal::from_u64(500),
        unhealthy_borrow_value: Decimal::from_u64(600),
        last_update: LastUpdate { slot: 0, stale: false },
    };
    market.obligations.push((USER, obligation));
    (market, key)
}

#[test]
fn test_liquidation_gate_healthy() {
    // borrowed value 500 is below the unhealthy threshold 600: forbidden
    let (mut market, key) = liquidation_market(500, 1000);
    assert_eq!(
        market.liquidate_obligation(USER, key, key, Uint256::from_u64(50), 0),
        Err(LendingError::ObligationHealthy)
    );
}

#[test]
fn test_liquidation_too_small() {
    // the withdrawn share of a 1000-value entry floors to nothing
    let (mut market, key) = liquidation_market(650, 1000);
    assert_eq!(
        market.liquidate_obligation(USER, key, key, Uint256::from_u64(30), 0),
        Err(LendingError::LiquidationTooSmall)
    );
}

#[test]
fn test_liquidation_succeeds() {
    // ltv 50, threshold 60, deposited value 1000, borrowed value 650:
    // 50 of value may be repaid; against a 40-value entry the 5% premium
    // releases one collateral token
    let mut market = new_market();
    market
        .init_reserve(OWNER, 0, unit_price(), Uint256::from_u64(1_000_000), config(50, 60))
        .unwrap();
    market
        .init_reserve(OWNER, 0, unit_price(), Uint256::from_u64(1_000_000), config(50, 60))
        .unwrap();
    let repay_key = Address(0);
    let withdraw_key = Address(1);
    market.reserves[0].1.liquidity.borrowed_amount_wads = Decimal::from_u64(650);
    let obligation = Obligation {
        lending_market: MARKET,
        owner: USER,
        deposits: vec![Collateral {
            deposit_reserve: withdraw_key,
            deposited_amount: Uint256::from_u64(40),
            market_value: Decimal::from_u64(40),
        }],
        borrows: vec![Liquidity {
            borrow_reserve: repay_key,
            borrowed_amount_wads: Decimal::from_u64(650),
            market_value: Decimal::from_u64(650),
            cumulative_borrow_rate_wads: Decimal::one(),
        }],
        deposited_value: Decimal::from_u64(1000),
        borrowed_value: Decimal::from_u64(650),
        allowed_borrow_value: Decimal::from_u64(500),
        unhealthy_borrow_value: Decimal::from_u64(600),
        last_update: LastUpdate { slot: 0, stale: false },
    };
    market.obligations.push((USER, obligation));
    market
        .liquidate_obligation(USER, repay_key, withdraw_key, Uint256::from_u64(50), 0)
        .unwrap();
    let ob = market.get_obligation(USER).unwrap();
    assert_eq!(ob.borrows[0].borrowed_amount_wads, Decimal::from_u64(600));
    assert_eq!(ob.deposits[0].deposited_amount, Uint256::from_u64(39));
    let reserve = market.get_reserve(repay_key).unwrap();
    assert_eq!(reserve.liquidity.borrowed_amount_wads, Decimal::from_u64(600));
    assert_eq!(
        reserve.liquidity.available_amount,
        Uint256::from_u64(1_000_050)
    );
}

#[test]
fn test_flash_loan() {
    let mut market = new_market();
    market
        .init_reserve(
            OWNER,
            0,
            unit_price(),
            Uint256::from_u64(1_000),
            ReserveConfig {
                loan_to_value_ratio: 50,
                liquidation_threshold: 60,
                liquidation_bonus: 5,
                fees: ReserveFees {
                    borrow_fee_wad: Uint256::zero(),
                    // a fee rate of one raw unit per unit borrowed: the
                    // receiver owes twice the drawn amount
                    flash_loan_fee_wad: Uint256::from_u64(1),
                    host_fee_percentage: 0,
                },
            },
        )
        .unwrap();
    let key = Address(0);
    assert_eq!(
        market.flash_loan(key, Uint256::zero(), Uint256::zero()),
        Err(LendingError::InvalidAmount)
    );
    assert_eq!(
        market.flash_loan(Address(9), Uint256::from_u64(100), Uint256::from_u64(200)),
        Err(LendingError::InvalidAccountInput)
    );
    assert_eq!(
        market.flash_loan(key, Uint256::from_u64(100), Uint256::from_u64(150)),
        Err(LendingError::NotEnoughLiquidityAfterFlashLoan)
    );
    market.flash_loan(key, Uint256::from_u64(100), Uint256::from_u64(200)).unwrap();
    // the pool is exactly as it was
    let reserve = market.get_reserve(key).unwrap();
    assert_eq!(reserve.liquidity.available_amount, Uint256::from_u64(1_000));
    assert!(reserve.liquidity.borrowed_amount_wads.is_zero());
    // more than the pool holds
    assert_eq!(
        market.flash_loan(key, Uint256::from_u64(2_000), Uint256::from_u64(10_000)),
        Err(LendingError::InsufficientLiquidity)
    );
}

#[test]
fn test_refresh_obligation_requires_fresh_reserves() {
    let (mut market, key) = market_with_reserve();
    market.init_obligation(USER, 0).unwrap();
    market.obligations[0].1.deposits.push(Collateral {
        deposit_reserve: key,
        deposited_amount: Uint256::from_u64(100),
        market_value: Decimal::zero(),
    });
    market.reserves[0].1.last_update.stale = true;
    assert_eq!(market.refresh_obligation(USER, 0), Err(LendingError::ReserveStale));
    assert_eq!(
        market.refresh_obligation(Address(4444), 0),
        Err(LendingError::InvalidObligationOwner)
    );
    market.reserves[0].1.last_update.stale = false;
    market.refresh_obligation(USER, 0).unwrap();
    let ob = market.get_obligation(USER).unwrap();
    // 100 raw units of a 9-decimals token at the unit price are worth 100
    assert_eq!(ob.deposited_value, Decimal::from_u64(100));
    assert!(!ob.last_update.stale);
}
