use form4::numbers::{parse_decimal, parse_i32, Decimal};

#[test]
fn decimal_integer() {
    assert_eq!(
        parse_decimal("900"),
        Some(Decimal { neg: false, mantissa: 900, scale: 0 })
    );
}

#[test]
fn decimal_fractional() {
    assert_eq!(
        parse_decimal("12.50"),
        Some(Decimal { neg: false, mantissa: 1250, scale: 2 })
    );
}

#[test]
fn decimal_negative() {
    assert_eq!(
        parse_decimal("-3.5"),
        Some(Decimal { neg: true, mantissa: 35, scale: 1 })
    );
}

#[test]
fn decimal_trailing_dot() {
    assert_eq!(
        parse_decimal("7."),
        Some(Decimal { neg: false, mantissa: 7, scale: 0 })
    );
}

#[test]
fn decimal_rejects_words() {
    assert_eq!(parse_decimal("lots"), None);
}

#[test]
fn decimal_rejects_two_dots() {
    assert_eq!(parse_decimal("1.2.3"), None);
}

#[test]
fn decimal_rejects_empty() {
    assert_eq!(parse_decimal(""), None);
    assert_eq!(parse_decimal("-"), None);
    assert_eq!(parse_decimal("."), None);
}

#[test]
fn integer_plain() {
    assert_eq!(parse_i32("100"), Some(100));
}

#[test]
fn integer_signed() {
    assert_eq!(parse_i32("-100"), Some(-100));
    assert_eq!(parse_i32("+7"), Some(7));
}

#[test]
fn integer_bounds() {
    assert_eq!(parse_i32("2147483647"), Some(2147483647));
    assert_eq!(parse_i32("2147483648"), None);
    assert_eq!(parse_i32("-2147483648"), Some(-2147483648));
    assert_eq!(parse_i32("-2147483649"), None);
}

#[test]
fn integer_rejects_junk() {
    assert_eq!(parse_i32("12a"), None);
    assert_eq!(parse_i32(""), None);
    assert_eq!(parse_i32("1.5"), None);
}
