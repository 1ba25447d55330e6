use rust_lessons::numbers::{parse_i64, parse_unsigned};
use rust_lessons::str_parser::{parse_first_number, parse_found, Parse};

#[test]
fn unsigned_reading() {
    assert_eq!(parse_unsigned("0", 255), Some(0));
    assert_eq!(parse_unsigned("+12", 255), Some(12));
    assert_eq!(parse_unsigned("255", 255), Some(255));
    assert_eq!(parse_unsigned("256", 255), None);
    assert_eq!(parse_unsigned("", 255), None);
    assert_eq!(parse_unsigned("+", 255), None);
    assert_eq!(parse_unsigned("12a", 255), None);
    assert_eq!(parse_unsigned("-1", 255), None);
    assert_eq!(parse_unsigned("00042", 255), Some(42));
    assert_eq!(parse_unsigned("18446744073709551615", u64::MAX), Some(u64::MAX));
    assert_eq!(parse_unsigned("18446744073709551616", u64::MAX), None);
    assert_eq!(parse_unsigned("99999999999999999999999x", u64::MAX), None);
}

#[test]
fn signed_reading_matches_std() {
    for s in ["0", "-0", "+7", "-7", "42", "-9223372036854775808", "9223372036854775807",
              "9223372036854775808", "-9223372036854775809", "", "-", "+", "+-1", "1 ", "x"] {
        assert_eq!(parse_i64(s), s.parse::<i64>().ok(), "input {:?}", s);
    }
}

#[test]
fn parse_u8_from_free_text() {
    assert_eq!(u8::parse("122121.23123weqwe1233abc"), Err("failed to parse captured string".to_string()));
    assert_eq!(u8::parse("abc"), Err("failed to parse string".to_string()));
    assert_eq!(u8::parse("x42y7"), Ok(42));
    assert_eq!(u8::parse("price: 255"), Ok(255));
    assert_eq!(u8::parse("256"), Err("failed to parse captured string".to_string()));
}

#[test]
fn parse_wider_types_from_free_text() {
    assert_eq!(u16::parse("a65535b"), Ok(65535));
    assert_eq!(u32::parse("v1.5"), Err("failed to parse captured string".to_string()));
    assert_eq!(u32::parse("id 4000000000"), Ok(4_000_000_000));
    assert_eq!(u64::parse("007"), Ok(7));
    assert_eq!(u64::parse(""), Err("failed to parse string".to_string()));
}

#[test]
fn parse_found_outcomes() {
    assert_eq!(parse_found(Some(Some("12")), 255), Ok(12));
    assert_eq!(parse_found(Some(Some("1.2")), 255), Err("failed to parse captured string".to_string()));
    assert_eq!(parse_found(Some(None), 255), Err("failed to parse string".to_string()));
    assert_eq!(parse_found(None, 255), Err("failed to parse string".to_string()));
}

#[test]
fn parse_first_number_picks_leftmost() {
    assert_eq!(parse_first_number("a1b22", 100), Ok(1));
    assert_eq!(parse_first_number("no digits", 100), Err("failed to parse string".to_string()));
}

#[test]
fn parse_signed_from_free_text() {
    assert_eq!(i8::parse("t=127"), Ok(127));
    assert_eq!(i8::parse("t=128"), Err("failed to parse captured string".to_string()));
    assert_eq!(i16::parse("x-5"), Ok(5));
    assert_eq!(i32::parse("v1.5"), Err("failed to parse captured string".to_string()));
    assert_eq!(i32::parse("2147483647!"), Ok(i32::MAX));
    assert_eq!(i64::parse("none"), Err("failed to parse string".to_string()));
    assert_eq!(i64::parse("9223372036854775807"), Ok(i64::MAX));
}
