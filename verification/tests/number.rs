use linger::number::Number;

fn n(units: i64) -> Number {
    Number { units }
}

#[test]
fn whole_numbers() {
    assert_eq!(Number::from_integer(0), Some(n(0)));
    assert_eq!(Number::from_integer(12), Some(n(12_000_000)));
    assert_eq!(Number::from_integer(-3), Some(n(-3_000_000)));
    assert_eq!(Number::from_integer(9_223_372_036_854), Some(n(9_223_372_036_854_000_000)));
    assert_eq!(Number::from_integer(9_223_372_036_855), None);
    assert_eq!(Number::from_integer(i64::MIN), None);
    assert_eq!(Number::zero(), n(0));
    assert_eq!(Number::one(), n(1_000_000));
}

#[test]
fn parse_of_decimal_literals() {
    assert_eq!(Number::parse("0"), Some(n(0)));
    assert_eq!(Number::parse("42"), Some(n(42_000_000)));
    assert_eq!(Number::parse("007"), Some(n(7_000_000)));
    assert_eq!(Number::parse("3.14"), Some(n(3_140_000)));
    assert_eq!(Number::parse(".5"), Some(n(500_000)));
    assert_eq!(Number::parse("5."), Some(n(5_000_000)));
    assert_eq!(Number::parse("1.000001"), Some(n(1_000_001)));
    assert_eq!(Number::parse("1.0000019"), Some(n(1_000_001)));
    assert_eq!(Number::parse("9223372036854.775807"), Some(n(i64::MAX)));
}

#[test]
fn parse_rejects_what_is_no_literal_or_does_not_fit() {
    assert_eq!(Number::parse(""), None);
    assert_eq!(Number::parse("."), None);
    assert_eq!(Number::parse("1.2.3"), None);
    assert_eq!(Number::parse("-1"), None);
    assert_eq!(Number::parse("1a"), None);
    assert_eq!(Number::parse("1.a"), None);
    assert_eq!(Number::parse("\u{661}\u{662}"), None);
    assert_eq!(Number::parse("9223372036854.775808"), None);
    assert_eq!(Number::parse("10000000000000000000000000000000000000000"), None);
}

#[test]
fn addition_and_subtraction() {
    assert_eq!(n(100_000).add(n(200_000)), Some(n(300_000)));
    assert_eq!(n(1_000_000).sub(n(2_500_000)), Some(n(-1_500_000)));
    assert_eq!(n(i64::MAX).add(n(1)), None);
    assert_eq!(n(i64::MIN).sub(n(1)), None);
    assert_eq!(n(i64::MAX).add(n(i64::MIN)), Some(n(-1)));
}

#[test]
fn multiplication_rounds_toward_zero() {
    assert_eq!(n(1_500_000).mul(n(1_500_000)), Some(n(2_250_000)));
    assert_eq!(n(-1_500_000).mul(n(1_500_000)), Some(n(-2_250_000)));
    assert_eq!(n(1).mul(n(999_999)), Some(n(0)));
    assert_eq!(n(-1).mul(n(999_999)), Some(n(0)));
    assert_eq!(n(3).mul(n(500_000)), Some(n(1)));
    assert_eq!(n(-3).mul(n(500_000)), Some(n(-1)));
    assert_eq!(n(i64::MAX).mul(n(1_000_001)), None);
    assert_eq!(n(i64::MIN).mul(n(1_000_000)), Some(n(i64::MIN)));
    assert_eq!(n(i64::MIN).mul(n(-1_000_000)), None);
}

#[test]
fn division_rounds_toward_zero() {
    assert_eq!(n(1_000_000).div(n(3_000_000)), Some(n(333_333)));
    assert_eq!(n(-1_000_000).div(n(3_000_000)), Some(n(-333_333)));
    assert_eq!(n(10_000_000).div(n(4_000_000)), Some(n(2_500_000)));
    assert_eq!(n(1_000_000).div(n(0)), None);
    assert_eq!(n(i64::MAX).div(n(1)), None);
    assert_eq!(n(i64::MIN).div(n(-1_000_000)), None);
}

#[test]
fn remainder() {
    assert_eq!(n(7_000_000).rem(n(3_000_000)), Some(n(1_000_000)));
    assert_eq!(n(-7_000_000).rem(n(3_000_000)), Some(n(-1_000_000)));
    assert_eq!(n(7_000_000).rem(n(-3_000_000)), Some(n(1_000_000)));
    assert_eq!(n(7_500_000).rem(n(2_000_000)), Some(n(1_500_000)));
    assert_eq!(n(7_000_000).rem(n(0)), None);
    assert_eq!(n(i64::MIN).rem(n(-1)), Some(n(0)));
}

#[test]
fn negation() {
    assert_eq!(n(5).neg(), Some(n(-5)));
    assert_eq!(n(0).neg(), Some(n(0)));
    assert_eq!(n(i64::MIN).neg(), None);
}

#[test]
fn integer_part_and_test() {
    assert!(n(3_000_000).is_integer());
    assert!(n(-3_000_000).is_integer());
    assert!(n(0).is_integer());
    assert!(!n(3_140_000).is_integer());
    assert!(!n(-1).is_integer());
    assert_eq!(n(3_140_000).integer_part(), 3);
    assert_eq!(n(-3_140_000).integer_part(), -3);
    assert_eq!(n(999_999).integer_part(), 0);
    assert_eq!(n(i64::MIN).integer_part(), -9_223_372_036_854);
}

#[test]
fn display() {
    assert_eq!(n(0).to_string(), "0");
    assert_eq!(n(14_000_000).to_string(), "14");
    assert_eq!(n(-5_000_000).to_string(), "-5");
    assert_eq!(n(3_140_000).to_string(), "3.14");
    assert_eq!(n(-500_000).to_string(), "-0.5");
    assert_eq!(n(1).to_string(), "0.000001");
    assert_eq!(n(100_000_050).to_string(), "100.00005");
    assert_eq!(n(i64::MAX).to_string(), "9223372036854.775807");
    assert_eq!(n(i64::MIN).to_string(), "-9223372036854.775808");
}
