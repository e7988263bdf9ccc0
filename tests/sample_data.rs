use fixed_precision_calculations::sample_data::{cents_to_text, generate_fake_monetary_values};

#[test]
fn test_generate_fake_monetary_values() {
    let values = generate_fake_monetary_values(10);

    for value in &values {
        assert!(value.contains('.'), "Value '{}' should have decimal point", value);

        let parsed: f64 = value.parse().unwrap();
        assert!(parsed >= 1.00 && parsed <= 1000.00, "Value '{}' should be between 1.00 and 1000.00", value);

        assert_eq!(value.split('.').nth(1).unwrap().len(), 2, "Value '{}' should have 2 decimal places", value);
    }

    assert!(!values.is_empty());
    assert_eq!(values.len(), 10);
}

#[test]
fn cents_are_written_with_two_fractional_digits() {
    assert_eq!(cents_to_text(100), "1.00");
    assert_eq!(cents_to_text(1202), "12.02");
    assert_eq!(cents_to_text(99999), "999.99");
    assert_eq!(cents_to_text(100000), "1000.00");
    assert_eq!(cents_to_text(5), "0.05");
}

#[test]
fn no_values_requested() {
    assert!(generate_fake_monetary_values(0).is_empty());
}
