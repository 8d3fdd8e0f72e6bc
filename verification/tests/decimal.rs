use oauth1_sign::decimal::{decimal_text, digit_char};
use oauth1_sign::value::signed_decimal_text;

#[test]
fn zero_is_a_single_digit() {
    assert_eq!(decimal_text(0), "0");
}

#[test]
fn small_numbers() {
    assert_eq!(decimal_text(7), "7");
    assert_eq!(decimal_text(10), "10");
    assert_eq!(decimal_text(42), "42");
    assert_eq!(decimal_text(100), "100");
    assert_eq!(decimal_text(1609459200), "1609459200");
}

#[test]
fn largest_unsigned() {
    assert_eq!(decimal_text(u64::MAX), "18446744073709551615");
}

#[test]
fn decimal_agrees_with_std() {
    let mut n: u64 = 1;
    for _ in 0..64 {
        assert_eq!(decimal_text(n), n.to_string());
        assert_eq!(decimal_text(n - 1), (n - 1).to_string());
        n = n.wrapping_mul(2);
    }
}

#[test]
fn digit_characters() {
    let text: String = (0u8..10).map(digit_char).collect();
    assert_eq!(text, "0123456789");
}

#[test]
fn negative_numbers_carry_a_minus_sign() {
    assert_eq!(signed_decimal_text(-1), "-1");
    assert_eq!(signed_decimal_text(-5), "-5");
    assert_eq!(signed_decimal_text(-1234567890), "-1234567890");
}

#[test]
fn signed_extremes() {
    assert_eq!(signed_decimal_text(i64::MIN), "-9223372036854775808");
    assert_eq!(signed_decimal_text(i64::MAX), "9223372036854775807");
    assert_eq!(signed_decimal_text(0), "0");
}
