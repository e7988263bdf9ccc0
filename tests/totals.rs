use fastnum::decimal::{Context, RoundingMode, Sign};
use fastnum::D128;
use fixed_precision_calculations::amount::Amount;
use fixed_precision_calculations::decimal::Decimal;
use fixed_precision_calculations::totals::{checked_total, decimal_total, sum_is_exact};

const DATA: [&str; 10] = [
    "548.15", "83.15", "805.28", "142.66", "107.19", "852.18", "50.29", "781.65", "887.29",
    "988.73",
];

fn decimal_from_f64(x: f64) -> Decimal {
    let d = D128::from_f64(x).with_rounding_mode(RoundingMode::HalfUp);
    Decimal::new(d.is_negative(), d.digits().to_u128().unwrap(), d.fractional_digits_count())
}

fn decimal_from_str(s: &str) -> Decimal {
    let d = D128::from_str(s, Context::default()).unwrap();
    Decimal::new(d.sign() == Sign::Minus, d.digits().to_u128().unwrap(), d.fractional_digits_count())
}

fn total_f64(data: &[&str]) -> f64 {
    let mut accumulator = 0.0;
    for s in data {
        let value: f64 = s.parse().unwrap();
        accumulator += value;
    }
    accumulator
}

#[test]
fn decimal_and_float_totals_diverge() {
    let values: Vec<Decimal> = DATA.iter().map(|s| decimal_from_f64(s.parse().unwrap())).collect();
    let r_d128: Amount<2> = Amount::from_decimal(decimal_total(&values));
    let r_f64 = total_f64(&DATA);

    assert_eq!(r_d128.round(20).to_string(), "5246.56999999999985817567");
    assert_eq!(format!("{:.20}", r_f64), "5246.56999999999970896170");
    assert_ne!(r_d128.round(20).to_string(), format!("{:.20}", r_f64));
}

#[test]
fn decimal_total_of_exact_values_is_exact() {
    let values: Vec<Decimal> = DATA.iter().map(|s| decimal_from_str(s)).collect();
    let total = decimal_total(&values);
    assert_eq!(total.digits, 524657);
    assert_eq!(total.scale, 2);
    let amount: Amount<2> = Amount::from_decimal(total);
    assert_eq!(amount.to_string(), "5246.57");
    assert_eq!(amount.to_i64(), Ok(524657));
}

#[test]
fn decimal_total_of_nothing_is_zero() {
    let total = decimal_total(&Vec::new());
    assert_eq!(total.digits, 0);
    assert_eq!(total.scale, 0);
}

#[test]
fn decimal_total_keeps_the_largest_scale() {
    let values = vec![Decimal::new(false, 5, 0), Decimal::new(true, 125, 3), Decimal::new(false, 1, 1)];
    let total = decimal_total(&values);
    assert!(!total.negative);
    assert_eq!(total.digits, 4975);
    assert_eq!(total.scale, 3);
}

#[test]
fn checked_total_matches_the_exact_total() {
    let values: Vec<Decimal> = DATA.iter().map(|s| decimal_from_str(s)).collect();
    let total = checked_total(&values).unwrap();
    assert_eq!(total.digits, 524657);
    assert_eq!(total.scale, 2);
    assert_eq!(checked_total(&Vec::new()).unwrap().digits, 0);
}

#[test]
fn checked_total_refuses_a_sum_beyond_the_precision() {
    let big = Decimal::new(false, u128::MAX, 0);
    let values = vec![big, Decimal::new(false, 1, 0)];
    assert!(checked_total(&values).is_none());
    let values = vec![big, Decimal::new(true, 1, 0)];
    assert_eq!(checked_total(&values).unwrap().digits, u128::MAX - 1);
}

#[test]
fn sum_exactness_is_decided() {
    assert!(sum_is_exact(Decimal::new(false, 5, 0), Decimal::new(false, 7, 3)));
    assert!(!sum_is_exact(Decimal::new(false, u128::MAX, 0), Decimal::new(false, 1, 0)));
    assert!(sum_is_exact(Decimal::new(false, u128::MAX, 0), Decimal::new(true, 1, 0)));
    assert!(!sum_is_exact(Decimal::new(false, 1, 0), Decimal::new(false, 1, 39)));
    assert!(sum_is_exact(Decimal::new(false, 0, 0), Decimal::new(false, 1, 30000)));
}
