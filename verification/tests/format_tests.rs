use sothis::format::{
    decimal_string, decimal_to_hex, format_hex, format_number_input, hex_to_decimal,
    is_valid_eth_address, parse_decimal, str_equal, NumParseError,
};

#[test]
fn hex_to_decimal_with_prefix() {
    assert_eq!(hex_to_decimal("0x2a"), Ok(42));
}

#[test]
fn hex_to_decimal_without_prefix() {
    assert_eq!(hex_to_decimal("2a"), Ok(42));
}

#[test]
fn hex_to_decimal_upper_case() {
    assert_eq!(hex_to_decimal("0x2A"), Ok(42));
}

#[test]
fn hex_to_decimal_zero() {
    assert_eq!(hex_to_decimal("0x0"), Ok(0));
}

#[test]
fn hex_to_decimal_max() {
    assert_eq!(hex_to_decimal("0xffffffffffffffff"), Ok(u64::MAX));
}

#[test]
fn hex_to_decimal_empty_input() {
    assert_eq!(hex_to_decimal(""), Err(NumParseError::Empty));
    assert_eq!(hex_to_decimal("0x"), Err(NumParseError::Empty));
}

#[test]
fn hex_to_decimal_invalid_digit() {
    assert_eq!(hex_to_decimal("0xzz"), Err(NumParseError::InvalidDigit));
}

#[test]
fn hex_to_decimal_overflow() {
    assert_eq!(
        hex_to_decimal("0x10000000000000000"),
        Err(NumParseError::Overflow)
    );
}

#[test]
fn parse_decimal_values() {
    assert_eq!(parse_decimal("0"), Ok(0));
    assert_eq!(parse_decimal("1234567890"), Ok(1234567890));
    assert_eq!(parse_decimal(""), Err(NumParseError::Empty));
    assert_eq!(parse_decimal("12a"), Err(NumParseError::InvalidDigit));
    assert_eq!(
        parse_decimal("18446744073709551616"),
        Err(NumParseError::Overflow)
    );
}

#[test]
fn decimal_to_hex_values() {
    assert_eq!(decimal_to_hex(42), "0x2a");
    assert_eq!(decimal_to_hex(0), "0x0");
    assert_eq!(decimal_to_hex(255), "0xff");
    assert_eq!(decimal_to_hex(u64::MAX), "0xffffffffffffffff");
}

#[test]
fn decimal_string_values() {
    assert_eq!(decimal_string(0), "0");
    assert_eq!(decimal_string(42), "42");
    assert_eq!(decimal_string(1234567890), "1234567890");
}

#[test]
fn format_hex_strips_one_quote_layer() {
    assert_eq!(format_hex("\"0x8a165b\""), "0x8a165b");
    assert_eq!(format_hex("0x8a165b"), "0x8a165b");
}

#[test]
fn format_number_input_passes_hex_through() {
    assert_eq!(format_number_input("0x10"), "0x10");
}

#[test]
fn format_number_input_converts_decimal() {
    assert_eq!(format_number_input("16"), "0x10");
    assert_eq!(format_number_input("0"), "0x0");
}

#[test]
fn eth_address_recognition() {
    assert!(is_valid_eth_address(
        "0x1111111111111111111111111111111111111111"
    ));
    assert!(!is_valid_eth_address("0x1111"));
    assert!(!is_valid_eth_address(
        "0x111111111111111111111111111111111111111g"
    ));
    assert!(!is_valid_eth_address(
        "ab1111111111111111111111111111111111111111"
    ));
}

#[test]
fn str_equal_cases() {
    assert!(str_equal("abc", "abc"));
    assert!(!str_equal("abc", "abd"));
    assert!(!str_equal("abc", "ab"));
    assert!(str_equal("", ""));
}
