//! Quoting and rendering: the round trip on concrete gnarly arguments, and
//! cross-checks of the verified splitter against the quoting crate's own.

use cmdbatch::cmdline::CommandLine;
use cmdbatch::quoting::quote_word;
use cmdbatch::quoting::split_words;

fn round_trip(args: &[&str]) {
    let mut line = String::new();
    for (i, a) in args.iter().enumerate() {
        if i > 0 {
            line.push(' ');
        }
        line.push_str(&quote_word(a));
    }
    let ours = split_words(&line).expect("rendered line must split");
    assert_eq!(ours, args.to_vec());
    let theirs = shell_words::split(&line).expect("rendered line must split");
    assert_eq!(theirs, args.to_vec());
}

#[test]
fn test_round_trip_plain() {
    round_trip(&["git", "status", "--porcelain"]);
}

#[test]
fn test_round_trip_spaces_and_quotes() {
    round_trip(&["echo", "hello world", "it's", "\"quoted\"", "a'b'c"]);
}

#[test]
fn test_round_trip_metacharacters() {
    round_trip(&["sh", "-c", "a | b && c > d; e <f `g` $(h) *?[x] ~ = % #k"]);
}

#[test]
fn test_round_trip_empty_and_newline() {
    round_trip(&["prog", "", "line1\nline2", "\n", "tab\tend", "back\\slash"]);
}

#[test]
fn test_round_trip_no_args() {
    round_trip(&[]);
}

#[test]
fn test_quote_word_matches_crate() {
    for w in [
        "",
        "plain",
        "has space",
        "it's",
        "new\nline",
        "new\nline'with'quote",
        "mixed $VAR `cmd` \"dq\"",
        "safe-word_1.2/x:y+z@h,w",
    ] {
        assert_eq!(quote_word(w), shell_words::quote(w).into_owned());
    }
}

#[test]
fn test_quote_word_shapes() {
    assert_eq!(quote_word(""), "''");
    assert_eq!(quote_word("plain"), "plain");
    assert_eq!(quote_word("two words"), "'two words'");
    assert_eq!(quote_word("a'b"), "'a'\\''b'");
    assert_eq!(quote_word("a\nb"), "'a\nb'");
}

#[test]
fn test_split_words_plain_shell_syntax() {
    let ours = split_words("a 'b c' \"d $x\" e\\ f  #comment").unwrap();
    let theirs = shell_words::split("a 'b c' \"d $x\" e\\ f  #comment").unwrap();
    assert_eq!(ours, theirs);
    assert_eq!(ours, vec!["a", "b c", "d $x", "e f"]);
}

#[test]
fn test_split_words_unmatched_quote() {
    assert!(split_words("unterminated 'quote").is_none());
    assert!(shell_words::split("unterminated 'quote").is_err());
    assert!(split_words("unterminated \"quote").is_none());
}

#[test]
fn test_command_line_display() {
    let mut cl = CommandLine::new("git");
    cl.arg("commit");
    cl.arg("-m");
    cl.arg("fix the bug");
    assert_eq!(cl.display(), "git commit -m 'fix the bug'");
    assert_eq!(cl.display_marked(), "`git commit -m 'fix the bug'`");
    cl.current_dir("/work/proj");
    assert_eq!(cl.display(), "git commit -m 'fix the bug' [cwd=/work/proj]");
    assert_eq!(
        cl.display_marked(),
        "`git commit -m 'fix the bug'` [cwd=/work/proj]"
    );
}

#[test]
fn test_command_line_splits_back() {
    let mut cl = CommandLine::new("run me");
    cl.arg("x$y");
    cl.arg("");
    let words = split_words(&cl.display()).unwrap();
    assert_eq!(words, vec!["run me", "x$y", ""]);
}
