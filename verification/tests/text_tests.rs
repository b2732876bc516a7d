use amlogic_cb_tools::args::{parse_decimal, parse_u16, parse_u8};
use amlogic_cb_tools::text;
use amlogic_cb_tools::text::{
    ascii_lowercase, concat_decimal, format_hex, format_hex_list, int_error_message,
    parse_prefixed, parse_uint, str_eq, trimmed, IntErrorKind,
};

#[test]
fn unsigned_parsing_like_std() {
    assert_eq!(parse_uint("255", 10, 255), Ok(255));
    assert_eq!(parse_uint("+7", 10, 255), Ok(7));
    assert_eq!(parse_uint("256", 10, 255), Err(IntErrorKind::PosOverflow));
    assert_eq!(parse_uint("", 10, 255), Err(IntErrorKind::Empty));
    assert_eq!(parse_uint("+", 10, 255), Err(IntErrorKind::InvalidDigit));
    assert_eq!(parse_uint("-1", 10, 255), Err(IntErrorKind::InvalidDigit));
    assert_eq!(parse_uint("9999x", 10, 255), Err(IntErrorKind::PosOverflow));
    assert_eq!(parse_uint("12x", 10, 255), Err(IntErrorKind::InvalidDigit));
    assert_eq!(parse_uint("fF", 16, 255), Ok(255));
    assert_eq!(parse_uint("18446744073709551615", 10, u64::MAX), Ok(u64::MAX));
    assert_eq!(parse_uint("18446744073709551616", 10, u64::MAX), Err(IntErrorKind::PosOverflow));
    for s in ["0", "42", "+42", "", "-", "x", "300", "0042"] {
        let std_result = s.parse::<u8>().map(u64::from).map_err(|e| e.to_string());
        let ours = parse_uint(s, 10, 255).map_err(int_error_message);
        assert_eq!(ours, std_result, "input {s:?}");
    }
}

#[test]
fn prefixed_numbers() {
    assert_eq!(parse_prefixed("0x1F", 255), Ok(31));
    assert_eq!(parse_prefixed("0X1f", 255), Ok(31));
    assert_eq!(parse_prefixed("31", 255), Ok(31));
    assert_eq!(parse_prefixed("0x", 255), Err(IntErrorKind::Empty));
    assert_eq!(parse_u8("0x100"), Err("number too large to fit in target type".to_string()));
    assert_eq!(parse_u16("0xFFFF"), Ok(0xFFFF));
    assert_eq!(parse_u16("65536"), Err("number too large to fit in target type".to_string()));
    assert_eq!(parse_decimal("0x10", 100), Err("invalid digit found in string".to_string()));
    assert_eq!(parse_decimal("100", 100), Ok(100));
}

#[test]
fn int_error_messages() {
    assert_eq!(int_error_message(IntErrorKind::Empty), "cannot parse integer from empty string");
    assert_eq!(int_error_message(IntErrorKind::InvalidDigit), "invalid digit found in string");
    assert_eq!(int_error_message(IntErrorKind::PosOverflow), "number too large to fit in target type");
}

#[test]
fn string_helpers() {
    assert_eq!(trimmed("  a b \n"), "a b");
    assert_eq!(trimmed("\u{3000}x\u{2029}"), "x");
    assert!(str_eq("abc", "abc"));
    assert!(!str_eq("abc", "abd"));
    assert_eq!(ascii_lowercase("GrEEn-Ä"), "green-Ä");
    assert_eq!(text::concat("a", "bc"), "abc");
    assert_eq!(concat_decimal("n=", 0), "n=0");
    assert_eq!(concat_decimal("n=", u64::MAX), format!("n={}", u64::MAX));
}

#[test]
fn hex_formats() {
    assert_eq!(format_hex(&[0x0A, 0xFF, 0x00]), "0A FF 00");
    assert_eq!(format_hex_list(&[0x55, 0xAB], true), "[55, AB]");
    assert_eq!(format_hex_list(&[0x55, 0xAB], false), format!("{:02x?}", vec![0x55u8, 0xAB]));
    assert_eq!(format_hex_list(&[], true), "[]");
}
