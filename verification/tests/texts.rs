use kalshi_mm::text::{
    comes_first, count_fp, decimal, dollars, has_text, parse_signed, parse_unsigned, same_text,
    starts_with, trim, unquote,
};

#[test]
fn texts_are_compared_and_searched() {
    assert!(same_text("yes", "yes"));
    assert!(!same_text("yes", "no"));
    assert!(has_text("error: post only cross", "post only cross"));
    assert!(!has_text("post only", "post only cross"));
    assert!(has_text("abc", ""));
    assert!(starts_with("WS disconnect: x", "WS disconnect"));
    assert!(!starts_with("WS", "WS disconnect"));
}

#[test]
fn texts_are_ordered_as_strings_are() {
    let list = ["", "2024-01-01", "2024-01-01T00:00:00Z", "2025", "9999", "~", "é", "日", "a", "B"];
    for a in list {
        for b in list {
            assert_eq!(comes_first(a, b), a <= b, "{} <= {}", a, b);
        }
    }
}

#[test]
fn numbers_are_read_as_the_standard_library_reads_them() {
    let list = [
        "0", "-0", "+5", "-5", "", "-", "+", "12a", " 1", "007", "9223372036854775807",
        "9223372036854775808", "-9223372036854775808", "-9223372036854775809",
        "18446744073709551615", "18446744073709551616", "4294967296", "١",
    ];
    for s in list {
        assert_eq!(parse_signed(s), s.parse::<i64>().ok(), "{:?}", s);
        assert_eq!(parse_unsigned(s, u64::MAX), s.parse::<u64>().ok(), "{:?}", s);
        assert_eq!(
            parse_unsigned(s, u32::MAX as u64),
            s.parse::<u32>().ok().map(|v| v as u64),
            "{:?}",
            s
        );
    }
}

#[test]
fn numbers_are_written_as_the_standard_library_writes_them() {
    for n in [0i64, 7, -7, 10, 99, 100, i64::MAX, i64::MIN] {
        assert_eq!(decimal(n), n.to_string());
        assert_eq!(count_fp(n), format!("{}.00", n));
    }
}

#[test]
fn prices_are_written_with_four_decimals() {
    assert_eq!(dollars(42), Some("0.4200".to_string()));
    assert_eq!(dollars(5), Some("0.0500".to_string()));
    let mut list: Vec<i64> = vec![0, 1, 99, 100, 101, -1, -150, 123_456_789];
    list.push(0x2000_0000_0000);
    list.push(-0x2000_0000_0000);
    let mut x: i64 = 1;
    for i in 0..2000i64 {
        x = (x * 6364136223846793005i64.wrapping_rem(1_000_003) + i) % 0x2000_0000_0000;
        list.push(x);
    }
    for cents in list {
        assert_eq!(dollars(cents), Some(format!("{:.4}", cents as f64 / 100.0)), "{}", cents);
    }
    assert_eq!(dollars(0x2000_0000_0001), None);
    assert_eq!(dollars(i64::MIN), None);
}

#[test]
fn white_space_and_quotes_are_stripped() {
    for s in ["  a b ", "\t\u{a0}x\u{3000}\n", "", "   ", "x", "\u{85}y\u{2028}"] {
        assert_eq!(trim(s), s.trim(), "{:?}", s);
    }
    for s in ["\"a\"", "\"\"a\"\"\"", "a\"b", "\"", "", "'a'"] {
        assert_eq!(unquote(s), s.trim_matches('"'), "{:?}", s);
    }
}
