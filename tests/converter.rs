use fastnum::decimal::{Context, Sign};
use fastnum::{D128, U128};
use fixed_precision_calculations::amount::Amount;
use fixed_precision_calculations::converter::{AmountConverter, AmountConverterError};
use fixed_precision_calculations::decimal::Decimal;

fn decimal_to_f64(d: Decimal) -> f64 {
    let sign = if d.negative { Sign::Minus } else { Sign::Plus };
    D128::from_parts(U128::from_u128(d.digits).unwrap(), -(d.scale as i32), sign, Context::default()).to_f64()
}

#[test]
fn test_amount_converter_init() {
    // Using decimals = 2
    let value = Amount::new_scaled_i32(1234);
    let converter = AmountConverter::<2>::new(value);

    assert_eq!(converter.amount_to_i32().unwrap(), 12);
    assert_eq!(decimal_to_f64(converter.amount().raw()), 12.34);

    // Using decimals = 0
    let value = Amount::new_scaled_i32(1234);
    let converter = AmountConverter::<0>::new(value);

    assert_eq!(converter.amount_to_i32().unwrap(), 1234);
    assert_eq!(decimal_to_f64(converter.amount().raw()), 1234.00);
}

#[test]
fn converter_reports_out_of_range() {
    let value: Amount<0> = Amount::new_scaled_i64(5_000_000_000);
    let converter = AmountConverter::new(value);
    assert_eq!(converter.amount_to_i32(), Err(AmountConverterError::OutOfRange));
    assert_eq!(converter.amount(), value);
}

#[test]
fn converter_rounds_half_away_from_zero() {
    let converter = AmountConverter::<2>::new(Amount::new_scaled_i32(-1250));
    assert_eq!(converter.amount_to_i32(), Ok(-13));
}
