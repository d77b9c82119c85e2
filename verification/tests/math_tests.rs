use nova_lending::error::LendingError;
use nova_lending::math::common::{WAD, HALF_WAD, PERCENT_SCALER};
use nova_lending::math::uint256::Uint256;
use nova_lending::math::{Decimal, Rate, TryAdd, TrySub, TryMul, TryDiv};

#[test]
fn test_scaler() {
    assert_eq!(Uint256::from_u64(WAD), Decimal::wad());
}

#[test]
fn test_rate_percent() {
    let rate = Rate::from_percent(5);
    assert_eq!(rate.to_scaled_val(), 50_000_000_000_000_000);
}

#[test]
fn test_rate_pow() {
    let rate = Rate::from_percent(10);
    let squared = rate.try_pow(2).unwrap();
    assert!(squared.0 < rate.0);
}

#[test]
fn test_rate_pow_exact() {
    // 1.1^2 == 1.21, exactly representable at the WAD scale
    let rate = Rate::from_percent(110);
    let squared = rate.try_pow(2).unwrap();
    assert_eq!(squared.to_scaled_val(), 1_210_000_000_000_000_000);
    // x^0 == 1 for any x
    assert_eq!(rate.try_pow(0).unwrap(), Rate::one());
}

#[test]
fn test_decimal_mul_exact() {
    let two = Decimal::from_u64(2);
    let three = Decimal::from_u64(3);
    let product = two.try_mul(three).unwrap();
    assert_eq!(product.to_scaled_val(), 6 * WAD as u128);
}

#[test]
fn test_decimal_add_sub_exact() {
    let two = Decimal::from_u64(2);
    let three = Decimal::from_u64(3);
    assert_eq!(two.try_add(three).unwrap().to_scaled_val(), 5 * WAD as u128);
    assert_eq!(three.try_sub(two).unwrap().to_scaled_val(), WAD as u128);
}

#[test]
fn test_decimal_div_exact() {
    let six = Decimal::from_u64(6);
    let three = Decimal::from_u64(3);
    assert_eq!(six.try_div(three).unwrap().to_scaled_val(), 2 * WAD as u128);
    assert_eq!(six.try_div(4u64).unwrap().to_scaled_val(), 6 * WAD as u128 / 4);
}

#[test]
fn test_decimal_mul_overflow() {
    // raw values of 2^128 each: the raw product is 2^256, out of range
    let big = Decimal(Uint256 { hi: 1, lo: 0 });
    assert_eq!(big.try_mul(big), Err(LendingError::MathOverflow));
    // a value near 2^256 / 10^18 still multiplies by one...
    let near = Decimal(Uint256 { hi: u128::MAX / (WAD as u128), lo: 0 });
    assert!(near.try_mul(Decimal::one()).is_ok());
    // ...but the largest value does not survive doubling
    let top = Decimal(Uint256 { hi: u128::MAX, lo: u128::MAX });
    assert_eq!(top.try_mul(Decimal::from_u64(2)), Err(LendingError::MathOverflow));
}

#[test]
fn test_decimal_add_overflow() {
    let top = Decimal(Uint256 { hi: u128::MAX, lo: u128::MAX });
    let one_raw = Decimal::from_scaled_val(1);
    assert_eq!(top.try_add(one_raw), Err(LendingError::MathOverflow));
}

#[test]
fn test_decimal_sub_underflow() {
    let zero = Decimal::zero();
    let one = Decimal::one();
    assert_eq!(zero.try_sub(one), Err(LendingError::MathOverflow));
}

#[test]
fn test_decimal_div_by_zero() {
    let one = Decimal::one();
    assert_eq!(one.try_div(Decimal::zero()), Err(LendingError::MathOverflow));
    assert_eq!(one.try_div(0u64), Err(LendingError::MathOverflow));
}

#[test]
fn test_decimal_rounding() {
    let one_and_half = Decimal::from_scaled_val(WAD as u128 + HALF_WAD as u128);
    assert_eq!(one_and_half.try_round_u64().unwrap(), 2);
    assert_eq!(one_and_half.try_ceil_u64().unwrap(), 2);
    assert_eq!(one_and_half.try_floor_u64().unwrap(), 1);

    let one_point_four = Decimal::from_scaled_val(WAD as u128 + 4 * WAD as u128 / 10);
    assert_eq!(one_point_four.try_round_u64().unwrap(), 1);
    assert_eq!(one_point_four.try_ceil_u64().unwrap(), 2);
    assert_eq!(one_point_four.try_floor_u64().unwrap(), 1);

    let exact = Decimal::from_u64(7);
    assert_eq!(exact.try_round_u64().unwrap(), 7);
    assert_eq!(exact.try_ceil_u64().unwrap(), 7);
    assert_eq!(exact.try_floor_u64().unwrap(), 7);
}

#[test]
fn test_decimal_floor_out_of_range() {
    let huge = Decimal(Uint256 { hi: u128::MAX, lo: 0 });
    assert_eq!(huge.try_floor_u64(), Err(LendingError::MathOverflow));
}

#[test]
fn test_decimal_percent_and_conversions() {
    assert_eq!(Decimal::from_percent(50).to_scaled_val(), 50 * PERCENT_SCALER as u128);
    let rate = Rate::from_percent(75);
    assert_eq!(Decimal::from_rate(rate).to_scaled_val(), rate.to_scaled_val());
    assert_eq!(Rate::from_decimal(Decimal::from_u64(3)).to_scaled_val(), 3 * WAD as u128);
    assert_eq!(Decimal::from_scaled_val(42).to_scaled_val(), 42);
}

#[test]
fn test_decimal_mul_rate() {
    let value = Decimal::from_u64(1000);
    let half = Rate::from_percent(50);
    assert_eq!(value.try_mul(half).unwrap(), Decimal::from_u64(500));
    assert_eq!(value.try_div(half).unwrap(), Decimal::from_u64(2000));
}

#[test]
fn test_uint256_comparisons_and_min() {
    let a = Uint256::from_u128(u128::MAX);
    let b = Uint256 { hi: 1, lo: 0 };
    assert!(a.lt(&b));
    assert!(b.gt(&a));
    assert!(a.le(&a));
    assert!(a.ge(&a));
    assert_eq!(a.min(b), a);
    assert_eq!(b.min(a), a);
    assert!(Uint256::zero().is_zero());
    assert!(!b.is_zero());
    assert_eq!(Uint256::from_u64(7).as_u64(), 7);
    assert_eq!(Uint256::from_u128(1 << 100).as_u128(), 1 << 100);
    assert_eq!(Uint256::max_value(), Uint256 { hi: u128::MAX, lo: u128::MAX });
}

#[test]
fn test_uint256_try_add_sub() {
    let a = Uint256::from_u64(1);
    let b = Uint256::from_u64(2);
    assert_eq!(a.try_add(b).unwrap(), Uint256::from_u64(3));
    assert_eq!(b.try_sub(a).unwrap(), Uint256::from_u64(1));
    assert_eq!(a.try_sub(b), Err(LendingError::MathOverflow));
    assert_eq!(
        Uint256::max_value().try_add(Uint256::from_u64(1)),
        Err(LendingError::MathOverflow)
    );
    // carries propagate through the lower half
    let low_full = Uint256 { hi: 0, lo: u128::MAX };
    assert_eq!(low_full.try_add(Uint256::from_u64(1)).unwrap(), Uint256 { hi: 1, lo: 0 });
}

#[test]
fn test_error_codes_and_messages() {
    assert_eq!(LendingError::MathOverflow.code(), 14);
    assert_eq!(LendingError::ObligationHealthy.code(), 29);
    assert_eq!(LendingError::InsufficientCollateral.code(), 47);
    assert_eq!(LendingError::MathOverflow.message(), "Math operation overflow");
    assert_eq!(
        LendingError::ObligationHealthy.message(),
        "Cannot liquidate healthy obligations"
    );
}
