use zeroday_scan::number::{decimal_text, parse_int};

#[test]
fn parse_int_reads_plain_digits() {
    assert_eq!(parse_int("7"), Some(7));
    assert_eq!(parse_int("0"), Some(0));
    assert_eq!(parse_int("007"), Some(7));
    assert_eq!(parse_int("1234567890"), Some(1234567890));
}

#[test]
fn parse_int_reads_a_sign() {
    assert_eq!(parse_int("+7"), Some(7));
    assert_eq!(parse_int("-7"), Some(-7));
    assert_eq!(parse_int("-0"), Some(0));
}

#[test]
fn parse_int_holds_the_bounds_of_i32() {
    assert_eq!(parse_int("2147483647"), Some(i32::MAX));
    assert_eq!(parse_int("-2147483648"), Some(i32::MIN));
    assert_eq!(parse_int("2147483648"), None);
    assert_eq!(parse_int("-2147483649"), None);
    assert_eq!(parse_int("99999999999999999999999999"), None);
    assert_eq!(parse_int("00000000000000000000000012"), Some(12));
}

#[test]
fn parse_int_refuses_other_text() {
    for text in ["", "+", "-", " 7", "7 ", "7a", "a7", "1.5", "--1", "+-1", "\u{ff17}", "1_000"] {
        assert_eq!(parse_int(text), None);
    }
}

#[test]
fn parse_int_agrees_with_std() {
    for text in ["", "+", "-", "12", "-12", "+12", "2147483647", "2147483648", "-2147483648",
        "-2147483649", "0012", "1 2", "x"]
    {
        assert_eq!(parse_int(text), text.parse::<i32>().ok());
    }
}

#[test]
fn decimal_text_writes_base_ten() {
    assert_eq!(decimal_text(0), "0");
    assert_eq!(decimal_text(7), "7");
    assert_eq!(decimal_text(10), "10");
    assert_eq!(decimal_text(1234567890), "1234567890");
    assert_eq!(decimal_text(u32::MAX), "4294967295");
}

#[test]
fn decimal_text_reads_back() {
    for n in [0u32, 1, 9, 10, 99, 100, 65535, 2147483647] {
        assert_eq!(parse_int(&decimal_text(n)), Some(n as i32));
    }
}
