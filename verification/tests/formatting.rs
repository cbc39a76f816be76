use craftcalc::amount::parse_decimal;
use craftcalc::currency::decimal_to_gsc;
use craftcalc::currency::gsc_of_amount;

fn gsc_of_f64(v: f64) -> String {
    decimal_to_gsc(&v.to_string())
}

#[test]
fn test_f64_to_gsc() {
    let test = 1.0345f64;
    let test = gsc_of_f64(test);
    assert!(test == "1g 03s 45c", "t1 actual: {}", test);

    let test = -1.0345f64;
    let test = gsc_of_f64(test);
    assert!(test == "-1g 03s 45c", "t2 actual: {}", test);

    let test = 1.1f64;
    let test = gsc_of_f64(test);
    assert!(test == "1g 10s 0c", "t3 actual: {}", test);

    let test = -1.1f64;
    let test = gsc_of_f64(test);
    assert!(test == "-1g 10s 0c", "t4 actual: {}", test);

    let test = 1.03f64;
    let test = gsc_of_f64(test);
    assert!(test == "1g 03s 0c", "t5 actual: {}", test);

    let test = -1.03f64;
    let test = gsc_of_f64(test);
    assert!(test == "-1g 03s 0c", "t6 actual: {}", test);

    let test = 1.0305f64;
    let test = gsc_of_f64(test);
    assert!(test == "1g 03s 05c", "t7 actual: {}", test);

    let test = -1.0305f64;
    let test = gsc_of_f64(test);
    assert!(test == "-1g 03s 05c", "t8 actual: {}", test);

    let test = 1.035f64;
    let test = gsc_of_f64(test);
    assert!(test == "1g 03s 50c", "t9 actual: {}", test);

    let test = -1.035f64;
    let test = gsc_of_f64(test);
    assert!(test == "-1g 03s 50c", "t10 actual: {}", test);
}

#[test]
fn truncates_beyond_four_fractional_digits() {
    assert_eq!(gsc_of_f64(1.23456), "1g 23s 45c");
    assert_eq!(gsc_of_f64(1.234567891), "1g 23s 45c");
    assert_eq!(gsc_of_f64(0.99999), "0g 99s 99c");
}

#[test]
fn whole_values_have_zero_minor_fields() {
    assert_eq!(gsc_of_f64(0.0), "0g 0s 0c");
    assert_eq!(gsc_of_f64(1.0), "1g 0s 0c");
    assert_eq!(gsc_of_f64(-12.0), "-12g 0s 0c");
    assert_eq!(gsc_of_f64(1234567.0), "1234567g 0s 0c");
}

#[test]
fn fraction_length_decides_padding() {
    assert_eq!(gsc_of_f64(0.5), "0g 50s 0c");
    assert_eq!(gsc_of_f64(-0.5), "-0g 50s 0c");
    assert_eq!(gsc_of_f64(1.005), "1g 00s 50c");
    assert_eq!(gsc_of_f64(1.0005), "1g 00s 05c");
}

#[test]
fn five_digit_fractions_keep_two_subminor_digits() {
    // "1.10006" has minor "10" and sub-minor "00": the fourth digit is
    // kept even when zero, because four or more digits are present.
    assert_eq!(decimal_to_gsc("1.10006"), "1g 10s 00c");
}

#[test]
fn formatter_is_stable_across_repeated_calls() {
    let first = gsc_of_f64(1.0345);
    let second = gsc_of_f64(1.0345);
    assert_eq!(first, second);
}

#[test]
fn amounts_format_through_their_decimal_rendering() {
    let a = parse_decimal("-0.5").unwrap();
    assert_eq!(gsc_of_amount(&a), "-0g 50s 0c");
    let b = parse_decimal("599.95").unwrap();
    assert_eq!(gsc_of_amount(&b), "599g 95s 0c");
    let c = parse_decimal("6.0").unwrap();
    assert_eq!(gsc_of_amount(&c), "6g 0s 0c");
}

#[test]
fn parse_decimal_accepts_numerals_and_truncates() {
    assert_eq!(parse_decimal("1.23456"), parse_decimal("1.2345"));
    let a = parse_decimal("1.1").unwrap();
    assert!(!a.neg);
    assert_eq!(a.mag, 11000);
    let b = parse_decimal("-1.0345").unwrap();
    assert!(b.neg);
    assert_eq!(b.mag, 10345);
    let zero = parse_decimal("-0").unwrap();
    assert!(!zero.neg);
    assert_eq!(zero.mag, 0);
}

#[test]
fn parse_decimal_rejects_non_numerals() {
    assert_eq!(parse_decimal(""), None);
    assert_eq!(parse_decimal("-"), None);
    assert_eq!(parse_decimal("abc"), None);
    assert_eq!(parse_decimal("1.2.3"), None);
    assert_eq!(parse_decimal("1."), None);
    assert_eq!(parse_decimal(".5"), None);
    assert_eq!(parse_decimal("--1"), None);
    assert_eq!(parse_decimal("99999999999999999999999999"), None);
}

#[test]
fn parsing_a_rendering_returns_the_amount() {
    for text in ["6059.94", "-4.9", "0", "1.0005", "121.1988"] {
        let a = parse_decimal(text).unwrap();
        assert_eq!(parse_decimal(&a.to_decimal_string()), Some(a));
    }
}

#[test]
fn decimal_rendering_is_shortest_form() {
    assert_eq!(parse_decimal("6.0").unwrap().to_decimal_string(), "6");
    assert_eq!(parse_decimal("1.2300").unwrap().to_decimal_string(), "1.23");
    assert_eq!(parse_decimal("-1.0345").unwrap().to_decimal_string(), "-1.0345");
    assert_eq!(parse_decimal("0.0012").unwrap().to_decimal_string(), "0.0012");
}
