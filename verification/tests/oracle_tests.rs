use nova_lending::error::LendingError;
use nova_lending::pyth::{PythOracle, STALE_PRICE_THRESHOLD_SLOTS};
use nova_lending::Address;

const ADMIN: Address = Address(1);
const PUBLISHER: Address = Address(2);
const OUTSIDER: Address = Address(3);
const TOKEN: Address = Address(50);

fn oracle_with_price(price: i64, confidence: u64, exponent: i32, slot: u64) -> PythOracle {
    let mut oracle = PythOracle::init(ADMIN);
    oracle
        .update_price(ADMIN, TOKEN, price, confidence, exponent, 1, slot)
        .unwrap();
    oracle
}

#[test]
fn test_oracle_init_and_admin() {
    let mut oracle = PythOracle::init(ADMIN);
    assert_eq!(oracle.min_confidence_ratio, 5);
    assert_eq!(
        oracle.set_min_confidence_ratio(OUTSIDER, 10),
        Err(LendingError::InvalidOracleConfig)
    );
    oracle.set_min_confidence_ratio(ADMIN, 10).unwrap();
    assert_eq!(oracle.min_confidence_ratio, 10);
    assert_eq!(
        oracle.transfer_admin(OUTSIDER, OUTSIDER),
        Err(LendingError::InvalidOracleConfig)
    );
    oracle.transfer_admin(ADMIN, OUTSIDER).unwrap();
    assert_eq!(oracle.admin, OUTSIDER);
    assert!(oracle.get_supported_tokens().is_empty());
}

#[test]
fn test_oracle_publishers() {
    let mut oracle = PythOracle::init(ADMIN);
    assert!(!oracle.is_approved_publisher(PUBLISHER));
    assert_eq!(
        oracle.add_publisher(OUTSIDER, PUBLISHER),
        Err(LendingError::InvalidOracleConfig)
    );
    oracle.add_publisher(ADMIN, PUBLISHER).unwrap();
    assert!(oracle.is_approved_publisher(PUBLISHER));
    // an approved publisher may publish, an outsider may not
    oracle
        .update_price(PUBLISHER, TOKEN, 100, 1, 0, 1, 0)
        .unwrap();
    assert_eq!(
        oracle.update_price(OUTSIDER, TOKEN, 100, 1, 0, 1, 0),
        Err(LendingError::InvalidOracleConfig)
    );
    oracle.remove_publisher(ADMIN, PUBLISHER).unwrap();
    assert!(!oracle.is_approved_publisher(PUBLISHER));
    assert_eq!(
        oracle.update_price(PUBLISHER, TOKEN, 100, 1, 0, 1, 0),
        Err(LendingError::InvalidOracleConfig)
    );
}

#[test]
fn test_oracle_update_price_status_gate() {
    let mut oracle = PythOracle::init(ADMIN);
    // a non-trading status is rejected outright
    assert_eq!(
        oracle.update_price(ADMIN, TOKEN, 100, 1, 0, 0, 0),
        Err(LendingError::InvalidOracleConfig)
    );
    oracle.update_price(ADMIN, TOKEN, 100, 1, 0, 1, 0).unwrap();
    // republishing overwrites the record in place
    oracle.update_price(ADMIN, TOKEN, 200, 1, 0, 1, 0).unwrap();
    assert_eq!(oracle.prices.len(), 1);
    assert_eq!(oracle.get_price(TOKEN, 0), Some(200));
}

#[test]
fn test_oracle_get_price_gates() {
    // unknown asset
    let oracle = PythOracle::init(ADMIN);
    assert_eq!(oracle.get_price(TOKEN, 0), None);
    // usable price
    let oracle = oracle_with_price(100, 1, 0, 10);
    assert_eq!(oracle.get_price(TOKEN, 10), Some(100));
    // published in the future: the clock went backwards
    assert_eq!(oracle.get_price(TOKEN, 9), None);
    // too stale
    assert_eq!(oracle.get_price(TOKEN, 10 + STALE_PRICE_THRESHOLD_SLOTS), None);
    // confidence too wide: 6 exceeds 5% of 100
    let oracle = oracle_with_price(100, 6, 0, 0);
    assert_eq!(oracle.get_price(TOKEN, 0), None);
    let oracle = oracle_with_price(100, 5, 0, 0);
    assert_eq!(oracle.get_price(TOKEN, 0), Some(100));
    // a negative price never converts
    let oracle = oracle_with_price(-100, 1, 0, 0);
    assert_eq!(oracle.get_price(TOKEN, 0), None);
}

#[test]
fn test_oracle_exponent_conversion() {
    // positive exponent scales up
    let oracle = oracle_with_price(12, 0, 3, 0);
    assert_eq!(oracle.get_price(TOKEN, 0), Some(12_000));
    // negative exponent scales down, flooring
    let oracle = oracle_with_price(12_345, 0, -3, 0);
    assert_eq!(oracle.get_price(TOKEN, 0), Some(12));
    // a scale that leaves 64 bits converts to nothing
    let oracle = oracle_with_price(2, 0, 19, 0);
    assert_eq!(oracle.get_price(TOKEN, 0), None);
    let oracle = oracle_with_price(1, 0, 20, 0);
    assert_eq!(oracle.get_price(TOKEN, 0), None);
}

#[test]
fn test_oracle_price_with_confidence() {
    let oracle = oracle_with_price(12_345, 2_000, -3, 0);
    assert_eq!(oracle.get_price_with_confidence(TOKEN, 0), Some((12, 2)));
    let oracle = oracle_with_price(12_345, 2_000, -3, 0);
    assert_eq!(
        oracle.get_price_with_confidence(TOKEN, STALE_PRICE_THRESHOLD_SLOTS),
        None
    );
}
