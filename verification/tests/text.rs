use vvm_lib::text::{
    contains, decimal_text, same_text, starts_with, trim_end_matches,
    trim_start_matches,
};

#[test]
fn same_text_compares_character_by_character() {
    assert!(same_text("", ""));
    assert!(same_text("abc", "abc"));
    assert!(!same_text("abc", "abd"));
    assert!(!same_text("abc", "ab"));
}

#[test]
fn starts_with_looks_at_the_beginning() {
    assert!(starts_with("0x6004", "0x"));
    assert!(starts_with("0x", "0x"));
    assert!(starts_with("abc", ""));
    assert!(starts_with("", ""));
    assert!(!starts_with("0", "0x"));
    assert!(!starts_with("a0x", "0x"));
    assert!(starts_with("\u{e9}t\u{e9}", "\u{e9}t"));
}

#[test]
fn contains_finds_the_pattern_anywhere() {
    assert!(contains("vyper.0.3.3+commit.48e326f0.linux", "linux"));
    assert!(contains("linux-build", "linux"));
    assert!(contains("a.linux.b", "linux"));
    assert!(contains("abc", ""));
    assert!(contains("", ""));
    assert!(!contains("vyper.0.3.3.darwin", "linux"));
    assert!(!contains("linu", "linux"));
    assert!(!contains("", "linux"));
    assert!(!contains("Linux", "linux"));
    assert!(contains("aab", "ab"));
}

#[test]
fn trim_end_matches_takes_the_whole_trailing_run() {
    assert_eq!(trim_end_matches("0.3.3\n", '\n'), "0.3.3");
    assert_eq!(trim_end_matches("0.3.3\n\n", '\n'), "0.3.3");
    assert_eq!(trim_end_matches("0.3.3", '\n'), "0.3.3");
    assert_eq!(trim_end_matches("\n0.3.3", '\n'), "\n0.3.3");
    assert_eq!(trim_end_matches("\n\n", '\n'), "");
    assert_eq!(trim_end_matches("", '\n'), "");
}

#[test]
fn trim_start_matches_takes_every_leading_repetition() {
    assert_eq!(trim_start_matches("v0.3.3", "v"), "0.3.3");
    assert_eq!(trim_start_matches("vv0.3.3", "v"), "0.3.3");
    assert_eq!(trim_start_matches("0.3.3v", "v"), "0.3.3v");
    assert_eq!(trim_start_matches("0x0x12", "0x"), "12");
    assert_eq!(trim_start_matches("0x0", "0x"), "0");
    assert_eq!(trim_start_matches("00x", "0x"), "00x");
    assert_eq!(trim_start_matches("abc", ""), "abc");
    assert_eq!(trim_start_matches("", "v"), "");
    assert_eq!(trim_start_matches("vvv", "v"), "");
}

#[test]
fn decimal_text_has_no_leading_zeros() {
    assert_eq!(decimal_text(0), "0");
    assert_eq!(decimal_text(7), "7");
    assert_eq!(decimal_text(10), "10");
    assert_eq!(decimal_text(1203), "1203");
    assert_eq!(decimal_text(u64::MAX), "18446744073709551615");
}
