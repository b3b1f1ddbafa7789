use scheduler_rs::text::{count_words, parse_u64, parse_u64_checked, text_eq, IntParseError};

#[test]
fn parse_u64_reads_plain_digits() {
    assert_eq!(parse_u64("0"), Some(0));
    assert_eq!(parse_u64("600"), Some(600));
    assert_eq!(parse_u64("007"), Some(7));
}

#[test]
fn parse_u64_accepts_one_plus_sign() {
    assert_eq!(parse_u64("+7"), Some(7));
    assert_eq!(parse_u64("++7"), None);
    assert_eq!(parse_u64("+"), None);
}

#[test]
fn parse_u64_refuses_other_text() {
    assert_eq!(parse_u64(""), None);
    assert_eq!(parse_u64("-1"), None);
    assert_eq!(parse_u64(" 1"), None);
    assert_eq!(parse_u64("1 "), None);
    assert_eq!(parse_u64("12a"), None);
    assert_eq!(parse_u64("1.5"), None);
}

#[test]
fn parse_u64_limits() {
    assert_eq!(parse_u64("18446744073709551615"), Some(u64::MAX));
    assert_eq!(parse_u64("18446744073709551616"), None);
    assert_eq!(parse_u64("99999999999999999999999"), None);
}

#[test]
fn parse_u64_agrees_with_std() {
    for s in ["0", "1", "+1", "-0", "", "+", "42", "4 2", "18446744073709551615", "18446744073709551616", "٣"] {
        assert_eq!(parse_u64(s), s.parse::<u64>().ok(), "input {:?}", s);
    }
}

#[test]
fn count_words_counts_fields() {
    assert_eq!(count_words("*/5 * * * *"), 5);
    assert_eq!(count_words("  a  b "), 2);
    assert_eq!(count_words(""), 0);
    assert_eq!(count_words("   "), 0);
    assert_eq!(count_words("\t0\n1\u{3000}2"), 3);
}

#[test]
fn count_words_agrees_with_split_whitespace() {
    for s in ["0 0 * * *", " x ", "a\u{a0}b", "one", "a\tb\nc  d"] {
        assert_eq!(count_words(s), s.split_whitespace().count(), "input {:?}", s);
    }
}

#[test]
fn text_eq_compares_characters() {
    assert!(text_eq("exec", "exec"));
    assert!(!text_eq("exec", "exe"));
    assert!(!text_eq("run", "Run"));
    assert!(text_eq("", ""));
}

#[test]
fn white_space_agrees_with_std_on_every_char() {
    for n in 0u32..=0x10FFFF {
        if let Some(c) = char::from_u32(n) {
            assert_eq!(scheduler_rs::text::is_white_space(c), c.is_whitespace(), "code point {:#x}", n);
        }
    }
}

#[test]
fn parse_u64_checked_reports_the_kind() {
    assert_eq!(parse_u64_checked(""), Err(IntParseError::Empty));
    assert_eq!(parse_u64_checked("+"), Err(IntParseError::InvalidDigit));
    assert_eq!(parse_u64_checked("-"), Err(IntParseError::InvalidDigit));
    assert_eq!(parse_u64_checked("12a"), Err(IntParseError::InvalidDigit));
    assert_eq!(parse_u64_checked("99999999999999999999x"), Err(IntParseError::PosOverflow));
    assert_eq!(parse_u64_checked("+42"), Ok(42));
}
