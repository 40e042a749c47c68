use scaloscope::text::{format_i64, format_u32, format_u64, is_white_space_char, parse_usize, trim};

#[test]
fn trim_removes_surrounding_white_space() {
    assert_eq!(trim("  12\n"), "12");
    assert_eq!(trim("\r\n"), "");
    assert_eq!(trim(""), "");
    assert_eq!(trim("a b"), "a b");
    assert_eq!(trim("\u{3000}x y\u{a0}\t"), "x y");
    assert_eq!(trim("\u{85}\u{2028}7\u{2029}\u{205f}"), "7");
}

#[test]
fn trim_agrees_with_std() {
    let cases = [
        "", " ", "\t\n", "  abc  ", "\u{1680}z\u{200a}", "\u{200b}x\u{200b}", "é ", " 0 1 ", "\u{feff}k",
    ];
    for c in cases {
        assert_eq!(trim(c), c.trim(), "case {:?}", c);
    }
}

#[test]
fn trim_twice_is_trim_once() {
    for c in ["  x  ", "\n\n", "y", " \u{3000} z \u{3000} "] {
        assert_eq!(trim(trim(c)), trim(c));
    }
}

#[test]
fn white_space_agrees_with_std() {
    for v in 0u32..0x3100 {
        if let Some(c) = char::from_u32(v) {
            assert_eq!(is_white_space_char(c), c.is_whitespace(), "char {:x}", v);
        }
    }
}

#[test]
fn parse_accepts_decimal_numbers() {
    assert_eq!(parse_usize("42"), Some(42));
    assert_eq!(parse_usize("0"), Some(0));
    assert_eq!(parse_usize("007"), Some(7));
    assert_eq!(parse_usize("+7"), Some(7));
    assert_eq!(parse_usize(&usize::MAX.to_string()), Some(usize::MAX));
}

#[test]
fn parse_rejects_other_text() {
    assert_eq!(parse_usize(""), None);
    assert_eq!(parse_usize("+"), None);
    assert_eq!(parse_usize("-1"), None);
    assert_eq!(parse_usize("-0"), None);
    assert_eq!(parse_usize("1a"), None);
    assert_eq!(parse_usize(" 1"), None);
    assert_eq!(parse_usize("++1"), None);
    assert_eq!(parse_usize("١"), None);
    assert_eq!(parse_usize("99999999999999999999999999"), None);
    let too_big = (usize::MAX as u128 + 1).to_string();
    assert_eq!(parse_usize(&too_big), None);
}

#[test]
fn parse_agrees_with_std() {
    let cases = [
        "", "0", "12", "+12", "-12", "1_000", "1 ", "abc", "+", "-", "00000000000000000000000001",
        "18446744073709551615", "18446744073709551616", "4294967295", "4294967296",
    ];
    for c in cases {
        assert_eq!(parse_usize(c), c.parse::<usize>().ok(), "case {:?}", c);
    }
}

#[test]
fn format_writes_decimal() {
    assert_eq!(format_u64(0), "0");
    assert_eq!(format_u64(9), "9");
    assert_eq!(format_u64(10), "10");
    assert_eq!(format_u64(48000), "48000");
    assert_eq!(format_u64(u64::MAX), u64::MAX.to_string());
    assert_eq!(format_u32(44100), "44100");
    assert_eq!(format_u32(u32::MAX), "4294967295");
    assert_eq!(format_i64(0), "0");
    assert_eq!(format_i64(-5), "-5");
    assert_eq!(format_i64(i64::MIN), i64::MIN.to_string());
    assert_eq!(format_i64(i64::MAX), i64::MAX.to_string());
}

#[test]
fn formatted_numbers_parse_back() {
    for n in [0usize, 1, 9, 10, 99, 100, 512, 65535, 123456789, usize::MAX] {
        assert_eq!(parse_usize(&format_u64(n as u64)), Some(n));
    }
}
