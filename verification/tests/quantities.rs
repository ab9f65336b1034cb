use menus_manager::model::quantity::Quantity;
use menus_manager::number::parse_serving_count;
use menus_manager::text::chars_of;

fn parse(text: &str) -> Option<i64> {
    Quantity::parse(&chars_of(text)).map(|q| q.micros)
}

fn count(text: &str) -> Option<u8> {
    parse_serving_count(&chars_of(text))
}

#[test]
fn whole_numbers_are_millions_of_micros() {
    assert_eq!(parse("250"), Some(250_000_000));
    assert_eq!(parse("3"), Some(3_000_000));
    assert_eq!(parse("0"), Some(0));
    assert_eq!(parse("007"), Some(7_000_000));
}

#[test]
fn fractions_keep_six_digits() {
    assert_eq!(parse("0.5"), Some(500_000));
    assert_eq!(parse("0.125"), Some(125_000));
    assert_eq!(parse("1.000001"), Some(1_000_001));
    assert_eq!(parse("12.345678"), Some(12_345_678));
}

#[test]
fn seventh_digit_rounds_half_away_from_zero() {
    assert_eq!(parse("0.1234564"), Some(123_456));
    assert_eq!(parse("0.1234565"), Some(123_457));
    assert_eq!(parse("0.1234567"), Some(123_457));
    assert_eq!(parse("0.12345649999"), Some(123_456));
    assert_eq!(parse("0.9999995"), Some(1_000_000));
    assert_eq!(parse("-0.1234565"), Some(-123_457));
    assert_eq!(parse("0.0000004"), Some(0));
}

#[test]
fn signs_and_bare_points() {
    assert_eq!(parse("+1"), Some(1_000_000));
    assert_eq!(parse("-2.5"), Some(-2_500_000));
    assert_eq!(parse(".5"), Some(500_000));
    assert_eq!(parse("5."), Some(5_000_000));
    assert_eq!(parse("-0"), Some(0));
    assert_eq!(parse("+.25"), Some(250_000));
}

#[test]
fn what_is_no_decimal_numeral() {
    assert_eq!(parse(""), None);
    assert_eq!(parse("."), None);
    assert_eq!(parse("+"), None);
    assert_eq!(parse("-"), None);
    assert_eq!(parse("abc"), None);
    assert_eq!(parse("1.2.3"), None);
    assert_eq!(parse("1e3"), None);
    assert_eq!(parse("inf"), None);
    assert_eq!(parse("NaN"), None);
    assert_eq!(parse("1,5"), None);
    assert_eq!(parse(" 1"), None);
    assert_eq!(parse("--1"), None);
    assert_eq!(parse("1-"), None);
    assert_eq!(parse("\u{0661}"), None);
}

#[test]
fn the_largest_quantity() {
    assert_eq!(parse("9223372036854.775807"), Some(i64::MAX));
    assert_eq!(parse("-9223372036854.775807"), Some(-i64::MAX));
    assert_eq!(parse("9223372036854.775808"), None);
    assert_eq!(parse("9223372036854.7758074"), Some(i64::MAX));
    assert_eq!(parse("9223372036854.7758075"), None);
    assert_eq!(parse("9223372036855"), None);
    assert_eq!(parse("99999999999999999999999999999999999999999999"), None);
    assert_eq!(parse("0000000000000000000000000000000000000000001.5"), Some(1_500_000));
}

#[test]
fn scaling_rounds_to_hundredths() {
    // 1 / 3 * 1 = 0.333... -> 0.33
    assert_eq!(Quantity::from_micros(1_000_000).scaled(3, 1).micros, 330_000);
    // 2 / 3 * 1 = 0.666... -> 0.67
    assert_eq!(Quantity::from_micros(2_000_000).scaled(3, 1).micros, 670_000);
    // 0.125 / 4 * 8 = 0.25
    assert_eq!(Quantity::from_micros(125_000).scaled(4, 8).micros, 250_000);
    // 250 / 4 * 6 = 375
    assert_eq!(Quantity::from_micros(250_000_000).scaled(4, 6).micros, 375_000_000);
    // anything for no servings is nothing
    assert_eq!(Quantity::from_micros(250_000_000).scaled(4, 0).micros, 0);
}

#[test]
fn scaling_ties_go_away_from_zero() {
    assert_eq!(Quantity::from_micros(5_000).scaled(1, 1).micros, 10_000);
    assert_eq!(Quantity::from_micros(-5_000).scaled(1, 1).micros, -10_000);
    assert_eq!(Quantity::from_micros(4_999).scaled(1, 1).micros, 0);
    assert_eq!(Quantity::from_micros(-4_999).scaled(1, 1).micros, 0);
    assert_eq!(Quantity::from_micros(15_000).scaled(1, 1).micros, 20_000);
    assert_eq!(Quantity::from_micros(25_000).scaled(1, 1).micros, 30_000);
    // 0.01 / 2 * 1 = 0.005 -> 0.01
    assert_eq!(Quantity::from_micros(10_000).scaled(2, 1).micros, 10_000);
}

#[test]
fn scaling_stays_in_range() {
    assert_eq!(Quantity::from_micros(i64::MAX).scaled(1, 255).micros, i64::MAX);
    assert_eq!(Quantity::from_micros(i64::MIN).scaled(1, 255).micros, i64::MIN);
    assert_eq!(Quantity::from_micros(i64::MAX).scaled(1, 1).micros, i64::MAX);
    assert_eq!(Quantity::from_micros(i64::MIN).scaled(1, 1).micros, i64::MIN);
    assert_eq!(
        Quantity::from_micros(i64::MAX).scaled(255, 1).micros,
        36_170_086_419_040_000
    );
}

#[test]
fn sums_stay_in_range() {
    let one = Quantity::from_micros(1_000_000);
    assert_eq!(one.plus(one).micros, 2_000_000);
    assert_eq!(one.plus(Quantity::from_micros(-3_000_000)).micros, -2_000_000);
    assert_eq!(Quantity::from_micros(i64::MAX).plus(one).micros, i64::MAX);
    assert_eq!(Quantity::from_micros(i64::MIN).plus(Quantity::from_micros(-1)).micros, i64::MIN);
    assert_eq!(Quantity::from_micros(i64::MAX).plus(Quantity::from_micros(i64::MIN)).micros, -1);
}

#[test]
fn serving_counts() {
    assert_eq!(count("4"), Some(4));
    assert_eq!(count("+4"), Some(4));
    assert_eq!(count("004"), Some(4));
    assert_eq!(count("1"), Some(1));
    assert_eq!(count("255"), Some(255));
    assert_eq!(count("256"), None);
    assert_eq!(count("0"), None);
    assert_eq!(count("-4"), None);
    assert_eq!(count(""), None);
    assert_eq!(count("+"), None);
    assert_eq!(count("4.0"), None);
    assert_eq!(count("four"), None);
    assert_eq!(count("99999999999999999999999999999"), None);
}
