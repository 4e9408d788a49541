use saki_home_bot::decimal::Decimal;

fn number(text: &str) -> Decimal {
    match Decimal::parse(text) {
        Some(d) => d,
        None => panic!("{:?} should be a number", text),
    }
}

#[test]
fn text_comes_back_as_it_went_in() {
    for text in ["45.2", "12", "0", "-0", "-3.25", "007.50", "0.0000001", "30", "1.0"] {
        assert_eq!(number(text).to_text(), text);
    }
}

#[test]
fn long_numbers_keep_every_digit() {
    let text = "340282350000000000000000000000000000000";
    assert_eq!(number(text).to_text(), text);
    let tiny = "0.000000000000000000000000000000000000000000001";
    assert_eq!(number(tiny).to_text(), tiny);
}

#[test]
fn what_is_no_number_is_refused() {
    for text in [
        "", "-", ".", ".5", "5.", "1e3", "+1", "1.2.3", " 1", "1 ", "--1", "-.5", "1,5", "inf",
        "NaN", "0x10", "１２", "12٣", "1.-2", "é",
    ] {
        assert!(Decimal::parse(text).is_none(), "{:?} was taken for a number", text);
    }
}

#[test]
fn below_is_strict() {
    assert!(number("12").is_below(&number("30")));
    assert!(!number("45.2").is_below(&number("30")));
    assert!(!number("30").is_below(&number("30")));
    assert!(!number("30.0").is_below(&number("30")));
    assert!(!number("30").is_below(&number("30.00")));
    assert!(number("29.99").is_below(&number("30")));
    assert!(!number("30").is_below(&number("29.99")));
}

#[test]
fn below_compares_by_value_not_by_digits() {
    assert!(number("9").is_below(&number("10")));
    assert!(!number("10").is_below(&number("9")));
    assert!(number("009").is_below(&number("10")));
    assert!(number("99.999").is_below(&number("100")));
    assert!(number("0.1").is_below(&number("0.10000000001")));
    assert!(!number("0.10000000001").is_below(&number("0.1")));
    assert!(!number("1.50").is_below(&number("1.5")));
    assert!(!number("1.5").is_below(&number("1.50")));
    assert!(number("1.49").is_below(&number("1.5")));
    assert!(number("2").is_below(&number("10.5")));
    assert!(number("12345678901234567890123456789").is_below(&number("12345678901234567890123456790")));
}

#[test]
fn below_knows_the_sign() {
    assert!(number("-1").is_below(&number("0")));
    assert!(number("-1").is_below(&number("1")));
    assert!(!number("1").is_below(&number("-1")));
    assert!(number("-5").is_below(&number("-4.9")));
    assert!(!number("-4.9").is_below(&number("-5")));
    assert!(!number("-2").is_below(&number("-2.0")));
    assert!(number("-0.5").is_below(&number("0.25")));
}

#[test]
fn the_two_zeros_are_one() {
    assert!(!number("-0").is_below(&number("0")));
    assert!(!number("0").is_below(&number("-0")));
    assert!(!number("-0.00").is_below(&number("0")));
    assert!(number("-0").is_below(&number("0.01")));
    assert!(number("-0.01").is_below(&number("-0")));
}

#[test]
fn zero_is_told_whatever_its_digits() {
    assert!(number("0").is_zero());
    assert!(number("-0").is_zero());
    assert!(number("000.000").is_zero());
    assert!(!number("0.001").is_zero());
    assert!(!number("10").is_zero());
}

#[test]
fn a_copy_is_the_same_number() {
    let d = number("-12.340");
    let copy = d.clone();
    assert_eq!(copy.to_text(), "-12.340");
    assert!(!copy.is_below(&d));
    assert!(!d.is_below(&copy));
}
