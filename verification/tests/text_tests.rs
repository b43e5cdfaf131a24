use cegel_print_bridge::text::{
    decimal_string, format_hex4_upper, parse_hex_id_str, parse_u16_radix16_str, push_hex4_lower,
    starts_with, str_equal, trim_str,
};

#[test]
fn trim_removes_unicode_white_space() {
    assert_eq!(trim_str("  hola \t\n"), "hola");
    assert_eq!(trim_str("\u{3000}nombre\u{a0}"), "nombre");
    assert_eq!(trim_str("   "), "");
    assert_eq!(trim_str(""), "");
    assert_eq!(trim_str("a b"), "a b");
}

#[test]
fn hex_ids_parse_like_the_usb_adapter() {
    assert_eq!(parse_hex_id_str("04b8"), Some(0x04b8));
    assert_eq!(parse_hex_id_str(" 0x0E15 "), Some(0x0e15));
    assert_eq!(parse_hex_id_str("0x0x04b8"), Some(0x04b8));
    assert_eq!(parse_hex_id_str("+ff"), Some(0xff));
    assert_eq!(parse_hex_id_str("0000ffff"), Some(0xffff));
    assert_eq!(parse_hex_id_str("10000"), None);
    assert_eq!(parse_hex_id_str(""), None);
    assert_eq!(parse_hex_id_str("+"), None);
    assert_eq!(parse_hex_id_str("-5"), None);
    assert_eq!(parse_hex_id_str("0x"), None);
    assert_eq!(parse_hex_id_str("04g8"), None);
}

#[test]
fn radix16_matches_std() {
    for s in ["0", "ff", "FFFF", "+1", "+", "", "10000", "-1", "1 2", "abc"] {
        assert_eq!(parse_u16_radix16_str(s), u16::from_str_radix(s, 16).ok(), "input {s:?}");
    }
}

#[test]
fn hex4_formatting_is_upper_case_and_padded() {
    assert_eq!(format_hex4_upper(0x04b8), "04B8");
    assert_eq!(format_hex4_upper(0), "0000");
    assert_eq!(format_hex4_upper(0xffff), "FFFF");
    for v in [0u16, 1, 0x0e15, 0x2d90, 0xabcd] {
        assert_eq!(format_hex4_upper(v), format!("{:04X}", v));
        assert_eq!(parse_hex_id_str(&format_hex4_upper(v)), Some(v));
    }
}

#[test]
fn decimal_formatting() {
    assert_eq!(decimal_string(0), "0");
    assert_eq!(decimal_string(80), "80");
    assert_eq!(decimal_string(u64::MAX), u64::MAX.to_string());
}

#[test]
fn string_comparisons() {
    assert!(starts_with("https://api.cegel.app", "https://"));
    assert!(!starts_with("http://api", "https://"));
    assert!(starts_with("x", ""));
    assert!(str_equal("ñandú", "ñandú"));
    assert!(!str_equal("a", "ab"));
}

#[test]
fn hex4_lower_appends_padded_lower_case() {
    for v in [0u16, 0x04b8, 0x0E15, 0xffff] {
        let mut s = "id=".to_string();
        push_hex4_lower(&mut s, v);
        assert_eq!(s, format!("id={:04x}", v));
    }
}

#[test]
fn usb_ids_read_back_in_every_printed_form() {
    for v in [0u16, 0x0E15, 0x04B8, 0xABCD, 0xFFFF] {
        assert_eq!(parse_hex_id_str(&format!("{:04X}", v)), Some(v));
        assert_eq!(parse_hex_id_str(&format!("{:04x}", v)), Some(v));
        assert_eq!(parse_hex_id_str(&format!("0x{:x}", v)), Some(v));
        assert_eq!(parse_hex_id_str(&format!("0x{:04x}", v)), Some(v));
    }
}
