use r_ecipe_s::decimal::{parse_i64, parse_u16, parse_unsigned, render_i64, render_u64};

#[test]
fn parses_plain_digits() {
    assert_eq!(parse_i64("0"), Some(0));
    assert_eq!(parse_i64("7"), Some(7));
    assert_eq!(parse_i64("1234567890"), Some(1234567890));
    assert_eq!(parse_i64("000000000000000000000000000042"), Some(42));
}

#[test]
fn parses_signs() {
    assert_eq!(parse_i64("+5"), Some(5));
    assert_eq!(parse_i64("-5"), Some(-5));
    assert_eq!(parse_i64("-0"), Some(0));
    assert_eq!(parse_i64("+0"), Some(0));
}

#[test]
fn parses_the_ends_of_the_range() {
    assert_eq!(parse_i64("9223372036854775807"), Some(i64::MAX));
    assert_eq!(parse_i64("-9223372036854775808"), Some(i64::MIN));
    assert_eq!(parse_i64("9223372036854775808"), None);
    assert_eq!(parse_i64("-9223372036854775809"), None);
    assert_eq!(parse_i64("99999999999999999999999999999"), None);
}

#[test]
fn refuses_what_is_no_number() {
    for text in ["", "+", "-", " 1", "1 ", "1.0", "0x10", "١٢", "12a", "--1", "+-1", "1_000", "é"] {
        assert_eq!(parse_i64(text), None, "{:?}", text);
    }
}

#[test]
fn agrees_with_the_standard_library_on_i64() {
    let texts = [
        "0", "-0", "+0", "17", "-17", "+17", "", "-", "+", "abc", "12x", "9223372036854775807",
        "9223372036854775808", "-9223372036854775808", "-9223372036854775809", "0012", " 12",
    ];
    for text in texts {
        assert_eq!(parse_i64(text), text.parse::<i64>().ok(), "{:?}", text);
    }
}

#[test]
fn agrees_with_the_standard_library_on_u16() {
    let texts = ["0", "-0", "+0", "80", "65535", "65536", "-1", "+443", "", "+", "7700 ", "0x50"];
    for text in texts {
        assert_eq!(parse_u16(text), text.parse::<u16>().ok(), "{:?}", text);
    }
}

#[test]
fn unsigned_respects_the_bound() {
    assert_eq!(parse_unsigned("100", 100), Some(100));
    assert_eq!(parse_unsigned("101", 100), None);
    assert_eq!(parse_unsigned("18446744073709551615", u64::MAX), Some(u64::MAX));
    assert_eq!(parse_unsigned("18446744073709551616", u64::MAX), None);
}

#[test]
fn renders_as_display_does() {
    for n in [0u64, 1, 9, 10, 11, 99, 100, 12345, u64::MAX] {
        assert_eq!(render_u64(n), format!("{}", n));
    }
    for v in [0i64, 1, -1, 10, -10, 4096, i64::MAX, i64::MIN] {
        assert_eq!(render_i64(v), format!("{}", v));
    }
}

#[test]
fn reading_back_what_was_written_gives_the_number() {
    for v in [0i64, 1, -1, 42, -42, 1000000, i64::MAX, i64::MIN, i64::MIN + 1] {
        assert_eq!(parse_i64(&render_i64(v)), Some(v));
    }
}
