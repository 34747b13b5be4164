use yabridge_manager::paths::join_path;
use yabridge_manager::text::chars_of;
use yabridge_manager::text::parse_u64_str;
use yabridge_manager::text::split_lines;
use yabridge_manager::text::split_words;
use yabridge_manager::text::str_contains;
use yabridge_manager::text::str_ends_with;
use yabridge_manager::text::str_le;
use yabridge_manager::text::str_starts_with;
use yabridge_manager::text::string_of;
use yabridge_manager::text::trim_char_chars;
use yabridge_manager::text::trim_start_matches_chars;
use yabridge_manager::text::trim_str;
use yabridge_manager::text::u64_to_string;

fn as_strings(v: Vec<Vec<char>>) -> Vec<String> {
    v.iter().map(|l| string_of(l)).collect()
}

#[test]
fn trim_removes_unicode_whitespace_on_both_sides() {
    assert_eq!(trim_str("  a b \n"), "a b");
    assert_eq!(trim_str("\u{3000}\tx\u{a0}"), "x");
    assert_eq!(trim_str("   "), "");
    assert_eq!(trim_str(""), "");
}

#[test]
fn trim_twice_is_trim_once() {
    for s in ["  a ", "\n\nb c\r\n", "", " \u{2028} "] {
        let once = trim_str(s);
        assert_eq!(trim_str(&once), once);
        assert_eq!(once, s.trim());
    }
}

#[test]
fn prefix_suffix_and_substring() {
    assert!(str_starts_with("PRETTY_NAME=x", "PRETTY_NAME="));
    assert!(!str_starts_with("PRETTY", "PRETTY_NAME="));
    assert!(str_ends_with("plugin.dll", ".dll"));
    assert!(!str_ends_with("plugin.dl", ".dll"));
    assert!(str_contains("found 3 plugins", "plugin"));
    assert!(str_contains("abc", ""));
    assert!(!str_contains("ab", "abc"));
}

#[test]
fn parse_u64_follows_from_str() {
    assert_eq!(parse_u64_str("16384"), Some(16384));
    assert_eq!(parse_u64_str("+7"), Some(7));
    assert_eq!(parse_u64_str("007"), Some(7));
    assert_eq!(parse_u64_str("18446744073709551615"), Some(u64::MAX));
    assert_eq!(parse_u64_str("18446744073709551616"), None);
    assert_eq!(parse_u64_str(""), None);
    assert_eq!(parse_u64_str("+"), None);
    assert_eq!(parse_u64_str("-1"), None);
    assert_eq!(parse_u64_str(" 7"), None);
    assert_eq!(parse_u64_str("7kB"), None);
    for s in ["0", "+12", "99999999999999999999", "1_000", "x"] {
        assert_eq!(parse_u64_str(s), s.parse::<u64>().ok());
    }
}

#[test]
fn decimal_text_and_roundtrip() {
    assert_eq!(u64_to_string(0), "0");
    assert_eq!(u64_to_string(1234567890), "1234567890");
    assert_eq!(u64_to_string(u64::MAX), u64::MAX.to_string());
    for n in [0u64, 9, 10, 4096, u64::MAX] {
        assert_eq!(parse_u64_str(&u64_to_string(n)), Some(n));
    }
}

#[test]
fn lines_split_like_str_lines() {
    for s in ["a\r\nb\n\nc", "x\r", "one\n", "", "\n", "a\n\r\n"] {
        let got = as_strings(split_lines(&chars_of(s)));
        let want: Vec<String> = s.lines().map(|l| l.to_string()).collect();
        assert_eq!(got, want);
    }
    assert_eq!(as_strings(split_lines(&chars_of("a\r\nb\n\nc"))), vec!["a", "b", "", "c"]);
}

#[test]
fn words_split_like_split_whitespace() {
    let got = as_strings(split_words(&chars_of("  MemTotal:   16384 kB ")));
    assert_eq!(got, vec!["MemTotal:", "16384", "kB"]);
    assert!(split_words(&chars_of(" \t ")).is_empty());
}

#[test]
fn string_order_is_code_point_order() {
    assert!(str_le("A2", "a"));
    assert!(str_le("a", "ab"));
    assert!(!str_le("b", "a"));
    assert!(str_le("", ""));
    assert_eq!(str_le("Zeta", "alpha"), "Zeta" <= "alpha");
}

#[test]
fn trim_patterns() {
    let r = trim_start_matches_chars(&chars_of("PRETTY_NAME=PRETTY_NAME=\"x\""), &chars_of("PRETTY_NAME="));
    assert_eq!(string_of(&r), "\"x\"");
    let q = trim_char_chars(&chars_of("\"\"Arch Linux\""), '"');
    assert_eq!(string_of(&q), "Arch Linux");
    assert_eq!(string_of(&trim_char_chars(&chars_of("\"\""), '"')), "");
}

#[test]
fn join_follows_the_unix_rule() {
    assert_eq!(join_path("a", "b"), "a/b");
    assert_eq!(join_path("a/", "b"), "a/b");
    assert_eq!(join_path("", "b"), "b");
    assert_eq!(join_path("a", "/b"), "/b");
    assert_eq!(join_path("/home/u", ".wine"), "/home/u/.wine");
    for (a, b) in [("x", "y/z"), ("/", "etc"), ("", ""), ("q", "")] {
        let std_join = std::path::Path::new(a).join(b);
        assert_eq!(join_path(a, b), std_join.to_str().unwrap());
    }
}
