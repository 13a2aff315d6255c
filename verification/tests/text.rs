use periodic_table::text::{decimal_string, is_space, parse_u32, trim};

#[test]
fn trim_removes_whitespace_at_both_ends() {
    assert_eq!(trim("  iron \t\n"), "iron");
    assert_eq!(trim("iron"), "iron");
    assert_eq!(trim(" a b "), "a b");
    assert_eq!(trim(""), "");
    assert_eq!(trim(" \t\r\n"), "");
    assert_eq!(trim("\u{a0}\u{3000}x\u{2028}\u{85}"), "x");
}

#[test]
fn trim_agrees_with_std() {
    for s in ["", " ", "x", " x", "x ", "\u{2003}é \u{1680}", "\u{200b}x", "\u{180e}x", "\u{feff}x "] {
        assert_eq!(trim(s), s.trim());
    }
}

#[test]
fn is_space_agrees_with_std() {
    let mut c = 0u32;
    while c <= 0x3100 {
        if let Some(ch) = char::from_u32(c) {
            assert_eq!(is_space(ch), ch.is_whitespace());
        }
        c += 1;
    }
    assert!(!is_space('\u{feff}'));
}

#[test]
fn parse_reads_decimal_numerals() {
    assert_eq!(parse_u32("0"), Some(0));
    assert_eq!(parse_u32("8"), Some(8));
    assert_eq!(parse_u32("118"), Some(118));
    assert_eq!(parse_u32("007"), Some(7));
    assert_eq!(parse_u32("+26"), Some(26));
    assert_eq!(parse_u32("4294967295"), Some(4294967295));
}

#[test]
fn parse_refuses_what_is_no_numeral() {
    assert_eq!(parse_u32(""), None);
    assert_eq!(parse_u32("+"), None);
    assert_eq!(parse_u32("-1"), None);
    assert_eq!(parse_u32("++1"), None);
    assert_eq!(parse_u32("1+"), None);
    assert_eq!(parse_u32(" 1"), None);
    assert_eq!(parse_u32("1 "), None);
    assert_eq!(parse_u32("1_000"), None);
    assert_eq!(parse_u32("12a"), None);
    assert_eq!(parse_u32("fe"), None);
    assert_eq!(parse_u32("٣"), None);
    assert_eq!(parse_u32("4294967296"), None);
    assert_eq!(parse_u32("99999999999999999999999"), None);
}

#[test]
fn parse_agrees_with_std() {
    for s in ["", "0", "+0", "-0", "42", "+42", "4294967295", "4294967296", "00000000000001", "1e3", "0x10"] {
        assert_eq!(parse_u32(s), s.parse::<u32>().ok());
    }
}

#[test]
fn decimal_string_writes_numerals() {
    assert_eq!(decimal_string(0), "0");
    assert_eq!(decimal_string(9), "9");
    assert_eq!(decimal_string(10), "10");
    assert_eq!(decimal_string(118), "118");
    assert_eq!(decimal_string(4294967295), "4294967295");
}

#[test]
fn numeral_reads_back_as_its_number() {
    for n in [0u32, 1, 9, 10, 99, 100, 118, 65535, 4294967295] {
        assert_eq!(parse_u32(&decimal_string(n)), Some(n));
        assert_eq!(decimal_string(n), n.to_string());
    }
}
