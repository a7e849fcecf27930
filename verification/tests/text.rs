use cpu_tweaks::text::{
    chars_of, contains, decimal_string, lex_less, parse_i64, parse_u32, parse_u64, parse_u8,
    split_whitespace, starts_with_chars, trim_string,
};

#[test]
fn trim_removes_surrounding_whitespace() {
    assert_eq!(trim_string("  powersave\n"), "powersave");
    assert_eq!(trim_string("\t\r\n"), "");
    assert_eq!(trim_string("a b"), "a b");
    assert_eq!(trim_string("\u{3000}x\u{a0}"), "x");
    assert_eq!(trim_string(""), "");
}

#[test]
fn split_whitespace_gives_words() {
    let words = split_whitespace("performance powersave\n");
    assert_eq!(words, vec!["performance".to_string(), "powersave".to_string()]);
    let words = split_whitespace("  default  performance\tbalance_performance balance_power power ");
    assert_eq!(
        words,
        vec!["default", "performance", "balance_performance", "balance_power", "power"]
    );
    assert!(split_whitespace(" \n ").is_empty());
    assert!(split_whitespace("").is_empty());
}

#[test]
fn parse_u64_follows_str_parse() {
    assert_eq!(parse_u64("2700000"), Some(2700000));
    assert_eq!(parse_u64("+5"), Some(5));
    assert_eq!(parse_u64("0005"), Some(5));
    assert_eq!(parse_u64("18446744073709551615"), Some(u64::MAX));
    assert_eq!(parse_u64("18446744073709551616"), None);
    assert_eq!(parse_u64(""), None);
    assert_eq!(parse_u64("+"), None);
    assert_eq!(parse_u64("-5"), None);
    assert_eq!(parse_u64(" 5"), None);
    assert_eq!(parse_u64("5x"), None);
    for s in ["0", "+7", "99999999999999999999", "-0", "12a", "4294967296"] {
        assert_eq!(parse_u64(s), s.parse::<u64>().ok(), "{s}");
        assert_eq!(parse_u32(s), s.parse::<u32>().ok(), "{s}");
        assert_eq!(parse_u8(s), s.parse::<u8>().ok(), "{s}");
    }
}

#[test]
fn parse_narrow_types_reject_overflow() {
    assert_eq!(parse_u32("4294967295"), Some(u32::MAX));
    assert_eq!(parse_u32("4294967296"), None);
    assert_eq!(parse_u8("255"), Some(255));
    assert_eq!(parse_u8("256"), None);
}

#[test]
fn parse_i64_follows_str_parse() {
    assert_eq!(parse_i64("45000"), Some(45000));
    assert_eq!(parse_i64("-273150"), Some(-273150));
    assert_eq!(parse_i64("-9223372036854775808"), Some(i64::MIN));
    assert_eq!(parse_i64("9223372036854775807"), Some(i64::MAX));
    assert_eq!(parse_i64("9223372036854775808"), None);
    assert_eq!(parse_i64("-9223372036854775809"), None);
    assert_eq!(parse_i64("-"), None);
    for s in ["+3", "-0", "--1", "+-1", "1e3"] {
        assert_eq!(parse_i64(s), s.parse::<i64>().ok(), "{s}");
    }
}

#[test]
fn decimal_prints_like_display() {
    for n in [0u64, 7, 10, 99, 100, 2700000, u64::MAX] {
        assert_eq!(decimal_string(n), n.to_string());
    }
}

#[test]
fn printed_number_parses_back() {
    for n in [0u64, 1, 800000, 4_700_000, u64::MAX] {
        let printed = format!("{}\n", decimal_string(n));
        assert_eq!(parse_u64(&trim_string(&printed)), Some(n));
    }
}

#[test]
fn substring_search() {
    let hay = chars_of("Error executing command as another user: Request dismissed");
    assert!(contains(&hay, &chars_of("dismissed")));
    assert!(!contains(&hay, &chars_of("Not authorized")));
    assert!(contains(&hay, &chars_of("")));
    assert!(!contains(&chars_of("ab"), &chars_of("abc")));
    assert!(starts_with_chars(&chars_of("model name\t: X"), &chars_of("model name")));
    assert!(!starts_with_chars(&chars_of("model"), &chars_of("model name")));
}

#[test]
fn lexicographic_order_matches_str_cmp() {
    let pairs = [("Core 0", "Core 1"), ("Core 10", "Core 2"), ("", "a"), ("a", ""), ("abc", "abc"), ("Z", "a"), ("é", "z")];
    for (a, b) in pairs {
        assert_eq!(lex_less(&chars_of(a), &chars_of(b)), a < b, "{a} {b}");
    }
}
