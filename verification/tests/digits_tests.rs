use chord::digits::{parse_u64_dec, push_u16_hex, push_u64_dec, u64_to_dec_string, IntParseError};

#[test]
fn decimal_formatting_exact_values() {
    assert_eq!(u64_to_dec_string(0), "0");
    assert_eq!(u64_to_dec_string(7), "7");
    assert_eq!(u64_to_dec_string(10), "10");
    assert_eq!(u64_to_dec_string(1234), "1234");
    assert_eq!(u64_to_dec_string(u64::MAX), "18446744073709551615");
}

#[test]
fn decimal_push_appends() {
    let mut s = String::from("id=");
    push_u64_dec(42, &mut s);
    assert_eq!(s, "id=42");
}

#[test]
fn decimal_parsing_accepts_exactly_fitting_numerals() {
    assert_eq!(parse_u64_dec("0"), Ok(0));
    assert_eq!(parse_u64_dec("42"), Ok(42));
    assert_eq!(parse_u64_dec("007"), Ok(7));
    assert_eq!(parse_u64_dec("18446744073709551615"), Ok(u64::MAX));
}

#[test]
fn decimal_parsing_errors_name_the_failure() {
    assert_eq!(parse_u64_dec(""), Err(IntParseError::Empty));
    assert_eq!(parse_u64_dec("12a"), Err(IntParseError::InvalidDigit));
    assert_eq!(parse_u64_dec("-1"), Err(IntParseError::InvalidDigit));
    assert_eq!(parse_u64_dec(" 1"), Err(IntParseError::InvalidDigit));
    assert_eq!(parse_u64_dec("18446744073709551616"), Err(IntParseError::Overflow));
    assert_eq!(parse_u64_dec("99999999999999999999999"), Err(IntParseError::Overflow));
}

#[test]
fn decimal_round_trip_on_sample_values() {
    for v in [0u64, 1, 9, 10, 255, 65535, 1 << 40, u64::MAX] {
        assert_eq!(parse_u64_dec(&u64_to_dec_string(v)), Ok(v));
    }
}

#[test]
fn hex_formatting_is_minimal_lower_case() {
    let mut s = String::new();
    push_u16_hex(0, &mut s);
    assert_eq!(s, "0");
    let mut s = String::new();
    push_u16_hex(0xabcd, &mut s);
    assert_eq!(s, "abcd");
    let mut s = String::new();
    push_u16_hex(0x00ff, &mut s);
    assert_eq!(s, "ff");
    let mut s = String::new();
    push_u16_hex(u16::MAX, &mut s);
    assert_eq!(s, "ffff");
}
