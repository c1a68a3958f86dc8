use peek::text::{
    after_last_char, contains_str, decimal_string, is_control_char, is_whitespace_char, join_range,
    same_text, split_lines, split_whitespace, starts_with, trim, trim_end_char,
};

#[test]
fn whitespace_matches_std_for_every_char() {
    for u in 0u32..=0x10FFFF {
        if let Some(c) = char::from_u32(u) {
            assert_eq!(is_whitespace_char(c), c.is_whitespace(), "U+{:04X}", u);
        }
    }
}

#[test]
fn control_matches_std_for_every_char() {
    for u in 0u32..=0x10FFFF {
        if let Some(c) = char::from_u32(u) {
            assert_eq!(is_control_char(c), c.is_control(), "U+{:04X}", u);
        }
    }
}

#[test]
fn split_whitespace_matches_std() {
    let samples = [
        "",
        "   ",
        "a",
        "  a  b\tc\n d ",
        "COMMAND   PID USER   FD   TYPE DEVICE SIZE/OFF NODE NAME",
        "x\u{3000}y\u{00A0}z",
        "tab\t\tsep",
    ];
    for s in samples {
        let expected: Vec<&str> = s.split_whitespace().collect();
        let got = split_whitespace(s);
        assert_eq!(got, expected, "{:?}", s);
    }
}

#[test]
fn split_lines_matches_std() {
    let samples = ["", "\n", "a", "a\n", "a\nb", "a\r\nb\r\n", "a\r", "\r\n\r\n", "x\n\ny\n"];
    for s in samples {
        let expected: Vec<&str> = s.lines().collect();
        let got = split_lines(s);
        assert_eq!(got, expected, "{:?}", s);
    }
}

#[test]
fn join_range_joins_with_separator() {
    let parts: Vec<String> = vec!["a".into(), "b".into(), "c".into(), "d".into()];
    assert_eq!(join_range(&parts, 1, 4, " "), "b c d");
    assert_eq!(join_range(&parts, 2, 2, " "), "");
    assert_eq!(join_range(&parts, 0, 1, "-"), "a");
}

#[test]
fn searching_and_trimming() {
    assert!(contains_str("localhost:8080", "8080"));
    assert!(contains_str("abc", ""));
    assert!(!contains_str("abc", "abcd"));
    assert!(starts_with("COMMAND x", "COMMAND"));
    assert!(!starts_with("COMM", "COMMAND"));
    assert!(same_text("..", ".."));
    assert!(!same_text(".", ".."));
    assert_eq!(trim("  a b \t"), "a b");
    assert_eq!(trim("   "), "");
    assert_eq!(trim_end_char("LISTEN))", ')'), "LISTEN");
    assert_eq!(after_last_char("[::1]:631", ':'), "631");
    assert_eq!(after_last_char("noport", ':'), "noport");
    assert_eq!(after_last_char("ends:", ':'), "");
}

#[test]
fn decimal_string_examples() {
    assert_eq!(decimal_string(0), "0");
    assert_eq!(decimal_string(7), "7");
    assert_eq!(decimal_string(10), "10");
    assert_eq!(decimal_string(86400), "86400");
    assert_eq!(decimal_string(u64::MAX), u64::MAX.to_string());
}
