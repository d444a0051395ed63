use coinbacked::decimal::Decimal;
use coinbacked::error::CoinbackedError;

#[test]
fn from_floor_round_trip_small() {
    let d = Decimal::from_u64(7);
    assert_eq!(d.try_floor_u64(), Ok(7));
}

#[test]
fn from_floor_round_trip_max() {
    let d = Decimal::from_u64(u64::MAX);
    assert_eq!(d.try_floor_u64(), Ok(u64::MAX));
}

#[test]
fn from_u128_round_trip() {
    let d = Decimal::from_u128(1_000_000u128);
    assert_eq!(d.try_floor_u64(), Ok(1_000_000));
}

#[test]
fn mul_then_div_inverse() {
    let a = Decimal::from_u64(1234);
    let b = Decimal::from_u64(5678);
    let m = a.try_mul(b).unwrap();
    let q = m.try_div(b).unwrap();
    assert_eq!(q.try_floor_u64(), Ok(1234));
}

#[test]
fn mul_exact_value() {
    let a = Decimal::from_u64(3);
    let b = Decimal::from_u64(4);
    let m = a.try_mul(b).unwrap();
    assert_eq!(m.try_floor_u64(), Ok(12));
}

#[test]
fn div_rounds_down() {
    let a = Decimal::from_u64(7);
    let b = Decimal::from_u64(2);
    let q = a.try_div(b).unwrap();
    // 3.5 floors to 3
    assert_eq!(q.try_floor_u64(), Ok(3));
}

#[test]
fn div_by_zero_fails() {
    let a = Decimal::from_u64(7);
    let b = Decimal::from_u64(0);
    assert_eq!(a.try_div(b), Err(CoinbackedError::MathError));
}

#[test]
fn sub_underflow_fails() {
    let a = Decimal::from_u64(1);
    let b = Decimal::from_u64(2);
    assert_eq!(a.try_sub(b), Err(CoinbackedError::MathError));
    let d = b.try_sub(a).unwrap();
    assert_eq!(d.try_floor_u64(), Ok(1));
}

#[test]
fn add_exact_value() {
    let a = Decimal::from_u64(40);
    let b = Decimal::from_u64(2);
    let s = a.try_add(b).unwrap();
    assert_eq!(s.try_floor_u64(), Ok(42));
}

#[test]
fn mul_overflow_fails() {
    let a = Decimal::from_u128(u128::MAX);
    let b = Decimal::from_u128(u128::MAX);
    assert_eq!(a.try_mul(b), Err(CoinbackedError::MathError));
}

#[test]
fn floor_too_large_fails() {
    // u128::MAX as a whole number does not fit a u64 floor.
    let a = Decimal::from_u128(u128::MAX);
    assert_eq!(a.try_floor_u64(), Err(CoinbackedError::MathError));
}

#[test]
fn mul_u64_and_div_u64() {
    let a = Decimal::from_u64(10);
    let m = a.try_mul_u64(5).unwrap();
    assert_eq!(m.try_floor_u64(), Ok(50));
    let q = m.try_div_u64(4).unwrap();
    // 12.5 floors to 12
    assert_eq!(q.try_floor_u64(), Ok(12));
    assert_eq!(m.try_div_u64(0), Err(CoinbackedError::MathError));
}

#[test]
fn display_whole_numbers() {
    assert_eq!(Decimal::from_u64(0).to_display_string(), "0.000000000000000000");
    assert_eq!(Decimal::from_u64(1).to_display_string(), "1.000000000000000000");
    assert_eq!(Decimal::from_u64(12_345).to_display_string(), "12345.000000000000000000");
}

#[test]
fn display_fractions() {
    let half = Decimal::from_u64(7).try_div(Decimal::from_u64(2)).unwrap();
    assert_eq!(half.to_display_string(), "3.500000000000000000");
    let cent = Decimal::from_u64(1).try_div(Decimal::from_u64(100)).unwrap();
    assert_eq!(cent.to_display_string(), "0.010000000000000000");
}

#[test]
fn display_pads_small_raw_values() {
    let tiny = Decimal(coinbacked::u192::U192 { w0: 42, w1: 0, w2: 0 });
    assert_eq!(tiny.to_display_string(), "0.000000000000000042");
}
