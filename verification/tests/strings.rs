//! The text helpers: number rendering, trimming, case folding, decimal
//! parsing, line and token splitting, and indentation.

use cmdbatch::logging::indent_lines;
use cmdbatch::logging::log_target_enabled;
use cmdbatch::strutil::ascii_lower;
use cmdbatch::strutil::i32_to_string;
use cmdbatch::strutil::parse_u64;
use cmdbatch::strutil::split_lines;
use cmdbatch::strutil::split_ws_tokens;
use cmdbatch::strutil::str_trim;
use cmdbatch::strutil::u64_to_string;

#[test]
fn test_number_rendering() {
    assert_eq!(u64_to_string(0), "0");
    assert_eq!(u64_to_string(7), "7");
    assert_eq!(u64_to_string(1234567890123), "1234567890123");
    assert_eq!(u64_to_string(u64::MAX), "18446744073709551615");
    assert_eq!(i32_to_string(0), "0");
    assert_eq!(i32_to_string(42), "42");
    assert_eq!(i32_to_string(-3), "-3");
    assert_eq!(i32_to_string(i32::MIN), "-2147483648");
}

#[test]
fn test_trim() {
    assert_eq!(str_trim("  hello \n"), "hello");
    assert_eq!(str_trim("\t\r\n "), "");
    assert_eq!(str_trim("no-trim"), "no-trim");
    assert_eq!(str_trim(" inner space kept "), "inner space kept");
    assert_eq!(str_trim(""), "");
}

#[test]
fn test_ascii_lower() {
    assert_eq!(ascii_lower("PyThOn"), "python");
    assert_eq!(ascii_lower("RS"), "rs");
    assert_eq!(ascii_lower("mixed-1_2.3"), "mixed-1_2.3");
    assert_eq!(ascii_lower(""), "");
}

#[test]
fn test_parse_u64() {
    assert_eq!(parse_u64("0"), Some(0));
    assert_eq!(parse_u64("00123"), Some(123));
    assert_eq!(parse_u64("18446744073709551615"), Some(u64::MAX));
    assert_eq!(parse_u64("18446744073709551616"), None);
    assert_eq!(parse_u64(""), None);
    assert_eq!(parse_u64("12a"), None);
    assert_eq!(parse_u64("-1"), None);
    assert_eq!(parse_u64(" 1"), None);
}

#[test]
fn test_split_lines() {
    assert_eq!(split_lines(""), Vec::<String>::new());
    assert_eq!(split_lines("one"), vec!["one"]);
    assert_eq!(split_lines("one\ntwo\n"), vec!["one", "two"]);
    assert_eq!(split_lines("one\r\ntwo"), vec!["one", "two"]);
    assert_eq!(split_lines("a\n\nb"), vec!["a", "", "b"]);
    // matches the standard lines() reading
    for s in ["", "x", "x\n", "a\nb\r\nc\n\n", "\n"] {
        let ours = split_lines(s);
        let std_lines: Vec<String> = s.lines().map(|l| l.to_string()).collect();
        assert_eq!(ours, std_lines, "on {s:?}");
    }
}

#[test]
fn test_split_ws_tokens() {
    assert_eq!(split_ws_tokens(""), Vec::<String>::new());
    assert_eq!(split_ws_tokens("  \t "), Vec::<String>::new());
    assert_eq!(split_ws_tokens("one"), vec!["one"]);
    assert_eq!(split_ws_tokens(" /usr/bin/env  python3\n"), vec!["/usr/bin/env", "python3"]);
    for s in ["a b", " a  b\tc ", "x\n y"] {
        let ours = split_ws_tokens(s);
        let std_tokens: Vec<String> = s.split_whitespace().map(|t| t.to_string()).collect();
        assert_eq!(ours, std_tokens, "on {s:?}");
    }
}

#[test]
fn test_indent_lines() {
    assert_eq!(indent_lines("", "[x] "), "");
    assert_eq!(indent_lines("one", "[x] "), "[x] one");
    assert_eq!(indent_lines("one\ntwo", "[x] "), "[x] one\n[x] two");
    assert_eq!(indent_lines("one\n", "[x] "), "[x] one\n");
    assert_eq!(indent_lines("a\n\nb", "> "), "> a\n> \n> b");
}

#[test]
fn test_log_target_enabled() {
    assert!(log_target_enabled("minigh"));
    assert!(log_target_enabled("minigh::client"));
    assert!(log_target_enabled("minigh::a::b"));
    assert!(!log_target_enabled("minigh2::client"));
    assert!(!log_target_enabled("ureq::request"));
    assert!(!log_target_enabled(""));
    assert!(!log_target_enabled("mini"));
}
