use fastnum::decimal::RoundingMode;
use fastnum::D128;
use fixed_precision_calculations::amount::Amount;
use fixed_precision_calculations::decimal::Decimal;
use fixed_precision_calculations::formatter::CurrencyFormatter;

fn decimal_from_f64(x: f64) -> Decimal {
    let d = D128::from_f64(x).with_rounding_mode(RoundingMode::HalfUp);
    Decimal::new(d.is_negative(), d.digits().to_u128().unwrap(), d.fractional_digits_count())
}

fn formatted(cents_raw: f64) -> String {
    let formatter = CurrencyFormatter::new();
    formatter.format_cents(decimal_from_f64(cents_raw)).to_string()
}

#[test]
fn formatted_from_cents_rounds_down() {
    assert_eq!(formatted(56097.26), "560.97");
}

#[test]
fn formatted_from_cents_carries_into_units() {
    // 560.999 → 561.00
    assert_eq!(formatted(56099.9), "561.00");
}

#[test]
fn formatted_from_cents_rounds_up() {
    // 560.989 → 560.99
    assert_eq!(formatted(56098.9), "560.99");
}

#[test]
fn formatted_from_exact_cents() {
    let formatter = CurrencyFormatter::new();
    let euros = formatter.format_cents(Decimal::new(false, 1234, 0));
    assert_eq!(euros.to_string(), "12.34");
    assert_eq!(euros.scale(), 2);
    let euros = formatter.format_cents(Decimal::new(true, 5, 1));
    assert_eq!(euros.to_string(), "-0.01");
    let euros = formatter.format_cents(Decimal::new(false, 0, 0));
    assert_eq!(euros.to_string(), "0.00");
}

#[test]
fn unrounded_quotient_keeps_float_noise() {
    let d = decimal_from_f64(56098.9);
    let formatter = CurrencyFormatter::new();
    let rounded = formatter.format_cents(d);
    assert_ne!(d.scale, 2);
    assert_eq!(rounded.raw().digits, 56099);
    assert_eq!(rounded.raw().scale, 2);
}

#[test]
fn formatted_from_a_count_too_large_to_round() {
    let formatter = CurrencyFormatter::new();
    let euros = formatter.format_cents(Decimal::new(false, u128::MAX, -10));
    assert_eq!(euros, Amount::from_decimal(Decimal::new(false, u128::MAX, -8)));
    assert_eq!(formatter.format_cents(Decimal::new(false, u128::MAX, -10)), euros);
}
