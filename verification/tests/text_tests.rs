use emusync::text::{
    chars_of, contains, ends_with, format_hex16, join_path, lines_of, parse_u64_chars,
    split_chars, starts_with, str_eq, trim_chars, u64_to_decimal,
};

fn cv(s: &str) -> Vec<char> {
    s.chars().collect()
}

fn strs(v: Vec<Vec<char>>) -> Vec<String> {
    v.into_iter().map(|c| c.into_iter().collect()).collect()
}

#[test]
fn trim_removes_unicode_whitespace_at_both_ends() {
    assert_eq!(trim_chars(&cv("  a b \t\n")), cv("a b"));
    assert_eq!(trim_chars(&cv("\u{a0}x\u{3000}")), cv("x"));
    assert_eq!(trim_chars(&cv("   ")), cv(""));
    assert_eq!(trim_chars(&cv("x")), cv("x"));
}

#[test]
fn split_keeps_empty_pieces() {
    assert_eq!(strs(split_chars(&cv("a||b"), '|')), vec!["a", "", "b"]);
    assert_eq!(strs(split_chars(&cv(""), '|')), vec![""]);
    assert_eq!(strs(split_chars(&cv("a|"), '|')), vec!["a", ""]);
}

#[test]
fn lines_split_like_str_lines() {
    assert_eq!(strs(lines_of(&cv("a\r\nb\n"))), vec!["a", "b"]);
    assert_eq!(strs(lines_of(&cv("a\n\nb"))), vec!["a", "", "b"]);
    assert_eq!(strs(lines_of(&cv(""))), Vec::<String>::new());
    assert_eq!(strs(lines_of(&cv("\n"))), vec![""]);
    assert_eq!(strs(lines_of(&cv("x\r"))), vec!["x\r"]);
    let s = "one\r\ntwo\nthree\r";
    assert_eq!(strs(lines_of(&cv(s))), s.lines().map(|l| l.to_string()).collect::<Vec<_>>());
}

#[test]
fn prefix_suffix_and_substring() {
    assert!(starts_with(&cv("sending x"), &cv("sending")));
    assert!(!starts_with(&cv("send"), &cv("sending")));
    assert!(ends_with(&cv("a (DRY RUN)"), &cv("(DRY RUN)")));
    assert!(!ends_with(&cv("a"), &cv("ab")));
    assert!(contains(&cv("10 bytes/sec"), &cv("bytes/sec")));
    assert!(!contains(&cv("bytes/se"), &cv("bytes/sec")));
    assert!(contains(&cv("abc"), &cv("")));
}

#[test]
fn parse_u64_follows_str_parse() {
    assert_eq!(parse_u64_chars(&cv("42")), Some(42));
    assert_eq!(parse_u64_chars(&cv("+5")), Some(5));
    assert_eq!(parse_u64_chars(&cv("007")), Some(7));
    assert_eq!(parse_u64_chars(&cv("")), None);
    assert_eq!(parse_u64_chars(&cv("+")), None);
    assert_eq!(parse_u64_chars(&cv("-1")), None);
    assert_eq!(parse_u64_chars(&cv(" 5")), None);
    assert_eq!(parse_u64_chars(&cv("18446744073709551615")), Some(u64::MAX));
    assert_eq!(parse_u64_chars(&cv("18446744073709551616")), None);
    assert_eq!(parse_u64_chars(&cv("99999999999999999999x")), None);
}

#[test]
fn decimal_and_hex_printing() {
    assert_eq!(u64_to_decimal(0), "0");
    assert_eq!(u64_to_decimal(1234), "1234");
    assert_eq!(u64_to_decimal(u64::MAX), u64::MAX.to_string());
    assert_eq!(format_hex16(0x0100152000022000), "0100152000022000");
    assert_eq!(format_hex16(0xabc), "0000000000000ABC");
    assert_eq!(format_hex16(u64::MAX), "FFFFFFFFFFFFFFFF");
}

#[test]
fn join_path_matches_path_join() {
    assert_eq!(join_path("/a", "b"), "/a/b");
    assert_eq!(join_path("/a/", "b"), "/a/b");
    assert_eq!(join_path("", "b"), "b");
    assert_eq!(join_path("/a", "/b"), "/b");
    assert_eq!(join_path("/a", "bis/user/save"), "/a/bis/user/save");
}

#[test]
fn uppercase_and_equality() {
    assert!(str_eq("x", "x"));
    assert!(!str_eq("x", "y"));
    assert_eq!(chars_of("héllo"), cv("héllo"));
}
