use git_smash::text::{
    first_token, parse_u32, replace_all, split_char, starts_with, str_eq, trim, trim_end,
    u64_string,
};

#[test]
fn first_token_takes_leading_word() {
    assert_eq!(first_token("deadbeef extra text"), "deadbeef");
}

#[test]
fn first_token_skips_leading_whitespace() {
    assert_eq!(first_token("  \tabc def"), "abc");
}

#[test]
fn first_token_of_blank_line_is_empty() {
    assert_eq!(first_token("   \t  "), "");
    assert_eq!(first_token(""), "");
}

#[test]
fn split_keeps_empty_parts() {
    let parts = split_char("a\n\nb", '\n');
    assert_eq!(parts, vec!["a".to_string(), "".to_string(), "b".to_string()]);
}

#[test]
fn split_without_separator_is_whole() {
    assert_eq!(split_char("abc", '\n'), vec!["abc".to_string()]);
}

#[test]
fn split_trailing_separator_gives_empty_tail() {
    assert_eq!(split_char("a\n", '\n'), vec!["a".to_string(), "".to_string()]);
}

#[test]
fn trim_both_sides() {
    assert_eq!(trim("  hello \n"), "hello");
    assert_eq!(trim(""), "");
    assert_eq!(trim(" \t\r\n"), "");
}

#[test]
fn trim_end_keeps_leading() {
    assert_eq!(trim_end("  x  \n"), "  x");
}

#[test]
fn starts_with_prefixes() {
    assert!(starts_with("fixup! message", "fixup! "));
    assert!(!starts_with("fix", "fixup! "));
    assert!(starts_with("anything", ""));
}

#[test]
fn str_eq_compares_contents() {
    assert!(str_eq("abc", "abc"));
    assert!(!str_eq("abc", "abd"));
    assert!(!str_eq("abc", "ab"));
}

#[test]
fn parse_u32_accepts_digits_and_plus() {
    assert_eq!(parse_u32("42"), Some(42));
    assert_eq!(parse_u32("+42"), Some(42));
    assert_eq!(parse_u32("0"), Some(0));
    assert_eq!(parse_u32("4294967295"), Some(u32::MAX));
}

#[test]
fn parse_u32_rejects_bad_input() {
    assert_eq!(parse_u32(""), None);
    assert_eq!(parse_u32("+"), None);
    assert_eq!(parse_u32("4294967296"), None);
    assert_eq!(parse_u32("12a"), None);
    assert_eq!(parse_u32("-1"), None);
    assert_eq!(parse_u32(" 7"), None);
}

#[test]
fn u64_string_renders_decimals() {
    assert_eq!(u64_string(0), "0");
    assert_eq!(u64_string(7), "7");
    assert_eq!(u64_string(1234567890123), "1234567890123");
}

#[test]
fn replace_all_substitutes_every_occurrence() {
    assert_eq!(replace_all("a[x]b[x]", "[x]", "Y"), "aYbY");
    assert_eq!(replace_all("no match", "[x]", "Y"), "no match");
    assert_eq!(replace_all("[x]", "[x]", ""), "");
}

#[test]
fn replace_all_does_not_rescan_replacements() {
    assert_eq!(replace_all("aaa", "aa", "b"), "ba");
}
