use videosub::seconds::{seconds_to_millis, StartError};

#[test]
fn seconds_are_counted_in_milliseconds() {
    assert_eq!(seconds_to_millis("1.0"), Ok(1000));
    assert_eq!(seconds_to_millis("2.5"), Ok(2500));
    assert_eq!(seconds_to_millis("7"), Ok(7000));
    assert_eq!(seconds_to_millis("0"), Ok(0));
    assert_eq!(seconds_to_millis("0.1"), Ok(100));
    assert_eq!(seconds_to_millis("0.12"), Ok(120));
    assert_eq!(seconds_to_millis("0.123"), Ok(123));
    assert_eq!(seconds_to_millis("00.05"), Ok(50));
    assert_eq!(seconds_to_millis("3723.004"), Ok(3_723_004));
}

#[test]
fn the_product_is_exact() {
    assert_eq!(seconds_to_millis("1.001"), Ok(1001));
    assert_eq!(seconds_to_millis("4.35"), Ok(4350));
    assert_eq!(seconds_to_millis("0.29"), Ok(290));
    assert_eq!(seconds_to_millis("1.005"), Ok(1005));
}

#[test]
fn what_is_less_than_a_millisecond_is_cut_off() {
    assert_eq!(seconds_to_millis("12.3456789"), Ok(12345));
    assert_eq!(seconds_to_millis("0.9999"), Ok(999));
    assert_eq!(seconds_to_millis("0.0009"), Ok(0));
    assert_eq!(seconds_to_millis("1.9999999999999999999999999999"), Ok(1999));
}

#[test]
fn a_point_may_stand_first_or_last() {
    assert_eq!(seconds_to_millis("7."), Ok(7000));
    assert_eq!(seconds_to_millis(".5"), Ok(500));
}

#[test]
fn a_sign_may_lead() {
    assert_eq!(seconds_to_millis("+1.5"), Ok(1500));
    assert_eq!(seconds_to_millis("-0"), Ok(0));
    assert_eq!(seconds_to_millis("-0.0"), Ok(0));
    assert_eq!(seconds_to_millis("-0.0004"), Ok(0));
}

#[test]
fn a_negative_time_is_refused() {
    assert_eq!(seconds_to_millis("-1"), Err(StartError::Negative));
    assert_eq!(seconds_to_millis("-0.001"), Err(StartError::Negative));
    assert_eq!(seconds_to_millis("-99999999999999999999999"), Err(StartError::Negative));
}

#[test]
fn what_is_no_numeral_is_refused() {
    for text in [
        "", ".", "+", "-", "+.", "abc", "-abc", "1.2.3", "1e3", "1E3", " 1", "1 ", "1,5", "inf",
        "NaN", "0x10", "++1", "1-", "\u{661}", "1.\u{661}", "1.5s",
    ] {
        assert_eq!(seconds_to_millis(text), Err(StartError::NotNumeric));
    }
}

#[test]
fn the_range_ends_at_the_largest_i64() {
    assert_eq!(seconds_to_millis("9223372036854775.807"), Ok(i64::MAX));
    assert_eq!(seconds_to_millis("9223372036854775.8079"), Ok(i64::MAX));
    assert_eq!(seconds_to_millis("9223372036854775.808"), Err(StartError::OutOfRange));
    assert_eq!(seconds_to_millis("9223372036854776"), Err(StartError::OutOfRange));
    assert_eq!(seconds_to_millis("99999999999999999999999"), Err(StartError::OutOfRange));
    assert_eq!(seconds_to_millis("99999999999999999999999.x"), Err(StartError::NotNumeric));
}

#[test]
fn leading_zeros_do_not_count() {
    assert_eq!(seconds_to_millis("0000000000000000000000001.5"), Ok(1500));
    assert_eq!(seconds_to_millis("000000000000000000000000"), Ok(0));
}
