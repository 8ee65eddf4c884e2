// Amount parsing: permissive, two decimal places, never a rejection.

use bills::amount::parse_amount;

#[test]
fn parse_unparsable_text_yields_zero() {
    assert_eq!(parse_amount("abc"), 0);
}

#[test]
fn parse_plain_integers() {
    assert_eq!(parse_amount("0"), 0);
    assert_eq!(parse_amount("7"), 700);
    assert_eq!(parse_amount("50"), 5000);
    assert_eq!(parse_amount("2917"), 291700);
}

#[test]
fn parse_two_decimal_amounts() {
    assert_eq!(parse_amount("50.00"), 5000);
    assert_eq!(parse_amount("2917.35"), 291735);
    assert_eq!(parse_amount("11.40"), 1140);
    assert_eq!(parse_amount("71.25"), 7125);
    assert_eq!(parse_amount("0.01"), 1);
}

#[test]
fn parse_short_fractions() {
    assert_eq!(parse_amount(".5"), 50);
    assert_eq!(parse_amount("1."), 100);
    assert_eq!(parse_amount("3.9"), 390);
}

#[test]
fn parse_rounds_past_the_second_decimal() {
    assert_eq!(parse_amount("1.239"), 124);
    assert_eq!(parse_amount("1.235"), 124);
    assert_eq!(parse_amount("1.2349"), 123);
    assert_eq!(parse_amount("1.2301"), 123);
}

#[test]
fn parse_rejects_malformed_decimals_as_zero() {
    assert_eq!(parse_amount(""), 0);
    assert_eq!(parse_amount("."), 0);
    assert_eq!(parse_amount("1.2.3"), 0);
    assert_eq!(parse_amount("12a"), 0);
    assert_eq!(parse_amount("-1"), 0);
    assert_eq!(parse_amount("1e3"), 0);
    assert_eq!(parse_amount(" 5"), 0);
}

#[test]
fn parse_clamps_amounts_past_a_word() {
    assert_eq!(parse_amount("999999999999999999999999999999"), u64::MAX);
    assert_eq!(parse_amount("184467440737095516.15"), u64::MAX);
    assert_eq!(parse_amount("184467440737095516.14"), u64::MAX - 1);
}
