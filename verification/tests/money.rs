use api::money::{format_cents, parse_amount};

#[test]
fn parses_whole_amounts() {
    assert_eq!(parse_amount("0"), Some(0));
    assert_eq!(parse_amount("10"), Some(1000));
    assert_eq!(parse_amount("999999999999999"), Some(99999999999999900));
}

#[test]
fn parses_fractional_amounts() {
    assert_eq!(parse_amount("10.00"), Some(1000));
    assert_eq!(parse_amount("10.0"), Some(1000));
    assert_eq!(parse_amount("8.99"), Some(899));
    assert_eq!(parse_amount("10.5"), Some(1050));
    assert_eq!(parse_amount("0.05"), Some(5));
    assert_eq!(parse_amount("10.550"), Some(1055));
    assert_eq!(parse_amount("10.5500000"), Some(1055));
}

#[test]
fn rejects_non_amounts() {
    assert_eq!(parse_amount(""), None);
    assert_eq!(parse_amount("-1"), None);
    assert_eq!(parse_amount("1e2"), None);
    assert_eq!(parse_amount(".5"), None);
    assert_eq!(parse_amount("5."), None);
    assert_eq!(parse_amount("1.2.3"), None);
    assert_eq!(parse_amount("10.555"), None);
    assert_eq!(parse_amount("ten"), None);
    assert_eq!(parse_amount("1 0"), None);
    assert_eq!(parse_amount("1000000000000000"), None);
}

#[test]
fn formats_cents_with_two_places() {
    assert_eq!(format_cents(0), "0.00");
    assert_eq!(format_cents(5), "0.05");
    assert_eq!(format_cents(899), "8.99");
    assert_eq!(format_cents(1000), "10.00");
    assert_eq!(format_cents(12345), "123.45");
}

#[test]
fn formatting_round_trips_through_parsing() {
    for cents in [0i64, 1, 99, 100, 101, 999, 1000, 123456789] {
        let text = format_cents(cents);
        assert_eq!(parse_amount(&text), Some(cents));
    }
}
