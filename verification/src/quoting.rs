//! POSIX shell quoting and word splitting.
//!
//! `quote_word` escapes one argument so that a POSIX shell reads it back as
//! a single literal word; `split_words` is the matching verified splitter,
//! a faithful transcription of POSIX field splitting with quote removal and
//! without expansions.  The round-trip law — splitting a rendered command
//! line recovers the original argument list — is proved at the bottom of
//! this file.

use vstd::prelude::*;

use crate::strutil::chars_to_string;
use crate::strutil::str_chars;

verus! {

/// Characters that make a word require quoting: shell metacharacters,
/// whitespace, quotes, and the comment, globbing and expansion introducers.
pub open spec fn is_special_char(c: char) -> bool {
    ||| c == '\n'
    ||| c == '\''
    ||| c == '|'
    ||| c == '&'
    ||| c == ';'
    ||| c == '<'
    ||| c == '>'
    ||| c == '('
    ||| c == ')'
    ||| c == '$'
    ||| c == '`'
    ||| c == '\\'
    ||| c == '"'
    ||| c == ' '
    ||| c == '\t'
    ||| c == '*'
    ||| c == '?'
    ||| c == '['
    ||| c == '#'
    ||| c == '~'
    ||| c == '='
    ||| c == '%'
}

pub open spec fn has_special(s: Seq<char>) -> bool {
    exists|i: int| 0 <= i < s.len() && is_special_char(s[i])
}

pub open spec fn has_newline(s: Seq<char>) -> bool {
    exists|i: int| 0 <= i < s.len() && s[i] == '\n'
}

pub open spec fn has_single_quote(s: Seq<char>) -> bool {
    exists|i: int| 0 <= i < s.len() && s[i] == '\''
}

/// How one character is written inside a single-quoted region when the word
/// itself contains single quotes: the quote is closed, the single quote is
/// backslash-escaped, and the quote is reopened.
pub open spec fn escape_char(c: char) -> Seq<char> {
    if c == '\'' {
        seq!['\'', '\\', '\'', '\'']
    } else {
        seq![c]
    }
}

/// The single-quoted-with-escapes body of a word.
pub open spec fn mixed_escape(s: Seq<char>) -> Seq<char>
    decreases s.len(),
{
    if s.len() == 0 {
        Seq::<char>::empty()
    } else {
        escape_char(s[0]) + mixed_escape(s.drop_first())
    }
}

/// The quoted form of one word: left alone when no character is special;
/// wrapped in single quotes when that suffices (an empty word, or one whose
/// only special characters include a newline but no single quote); otherwise
/// single-quoted with each single quote escaped.
pub open spec fn spec_quote(s: Seq<char>) -> Seq<char> {
    if s.len() == 0 {
        seq!['\'', '\'']
    } else if !has_special(s) {
        s
    } else if has_newline(s) && !has_single_quote(s) {
        seq!['\''] + s + seq!['\'']
    } else {
        seq!['\''] + mixed_escape(s) + seq!['\'']
    }
}

/// The rendered command line: the quoted words joined by single spaces.
pub open spec fn spec_render(ws: Seq<Seq<char>>) -> Seq<char>
    decreases ws.len(),
{
    if ws.len() == 0 {
        Seq::<char>::empty()
    } else {
        spec_quote(ws[0]) + spec_render_tail(ws.drop_first())
    }
}

pub open spec fn spec_render_tail(ws: Seq<Seq<char>>) -> Seq<char>
    decreases ws.len(),
{
    if ws.len() == 0 {
        Seq::<char>::empty()
    } else {
        seq![' '] + spec_quote(ws[0]) + spec_render_tail(ws.drop_first())
    }
}

/// The states of the POSIX field-splitting machine.
#[derive(Clone, Copy, Debug, Eq, PartialEq, Structural)]
pub enum SplitState {
    /// Between words.
    Delimiter,
    /// After a backslash that opens a word.
    Backslash,
    /// Inside an unquoted word.
    Unquoted,
    /// After a backslash inside an unquoted word.
    UnquotedBackslash,
    /// Inside a single-quoted region.
    SingleQuoted,
    /// Inside a double-quoted region.
    DoubleQuoted,
    /// After a backslash inside a double-quoted region.
    DoubleQuotedBackslash,
    /// Inside a comment.
    Comment,
}

/// One run of the splitting machine over the remaining input.  `word` is the
/// word being accumulated and `words` those already finished.  `None` means
/// the input ended inside a quoted region.
pub open spec fn split_from(
    rest: Seq<char>,
    state: SplitState,
    word: Seq<char>,
    words: Seq<Seq<char>>,
) -> Option<Seq<Seq<char>>>
    decreases rest.len(),
{
    if rest.len() == 0 {
        match state {
            SplitState::Delimiter => Some(words),
            SplitState::Backslash => Some(words.push(word.push('\\'))),
            SplitState::Unquoted => Some(words.push(word)),
            SplitState::UnquotedBackslash => Some(words.push(word.push('\\'))),
            SplitState::SingleQuoted => None,
            SplitState::DoubleQuoted => None,
            SplitState::DoubleQuotedBackslash => None,
            SplitState::Comment => Some(words),
        }
    } else {
        let c = rest[0];
        let r = rest.drop_first();
        match state {
            SplitState::Delimiter => {
                if c == '\'' {
                    split_from(r, SplitState::SingleQuoted, word, words)
                } else if c == '"' {
                    split_from(r, SplitState::DoubleQuoted, word, words)
                } else if c == '\\' {
                    split_from(r, SplitState::Backslash, word, words)
                } else if c == '\t' || c == ' ' || c == '\n' {
                    split_from(r, SplitState::Delimiter, word, words)
                } else if c == '#' {
                    split_from(r, SplitState::Comment, word, words)
                } else {
                    split_from(r, SplitState::Unquoted, word.push(c), words)
                }
            },
            SplitState::Backslash => {
                if c == '\n' {
                    split_from(r, SplitState::Delimiter, word, words)
                } else {
                    split_from(r, SplitState::Unquoted, word.push(c), words)
                }
            },
            SplitState::Unquoted => {
                if c == '\'' {
                    split_from(r, SplitState::SingleQuoted, word, words)
                } else if c == '"' {
                    split_from(r, SplitState::DoubleQuoted, word, words)
                } else if c == '\\' {
                    split_from(r, SplitState::UnquotedBackslash, word, words)
                } else if c == '\t' || c == ' ' || c == '\n' {
                    split_from(r, SplitState::Delimiter, Seq::<char>::empty(), words.push(word))
                } else {
                    split_from(r, SplitState::Unquoted, word.push(c), words)
                }
            },
            SplitState::UnquotedBackslash => {
                if c == '\n' {
                    split_from(r, SplitState::Unquoted, word, words)
                } else {
                    split_from(r, SplitState::Unquoted, word.push(c), words)
                }
            },
            SplitState::SingleQuoted => {
                if c == '\'' {
                    split_from(r, SplitState::Unquoted, word, words)
                } else {
                    split_from(r, SplitState::SingleQuoted, word.push(c), words)
                }
            },
            SplitState::DoubleQuoted => {
                if c == '"' {
                    split_from(r, SplitState::Unquoted, word, words)
                } else if c == '\\' {
                    split_from(r, SplitState::DoubleQuotedBackslash, word, words)
                } else {
                    split_from(r, SplitState::DoubleQuoted, word.push(c), words)
                }
            },
            SplitState::DoubleQuotedBackslash => {
                if c == '\n' {
                    split_from(r, SplitState::DoubleQuoted, word, words)
                } else if c == '$' || c == '`' || c == '"' || c == '\\' {
                    split_from(r, SplitState::DoubleQuoted, word.push(c), words)
                } else {
                    split_from(r, SplitState::DoubleQuoted, word.push('\\').push(c), words)
                }
            },
            SplitState::Comment => {
                if c == '\n' {
                    split_from(r, SplitState::Delimiter, word, words)
                } else {
                    split_from(r, SplitState::Comment, word, words)
                }
            },
        }
    }
}

/// What splitting a whole line yields.
pub open spec fn spec_split(s: Seq<char>) -> Option<Seq<Seq<char>>> {
    split_from(s, SplitState::Delimiter, Seq::<char>::empty(), Seq::<Seq<char>>::empty())
}

/// Relies on `shell_words::quote`: a word with no special character is
/// returned unchanged, and any other word is wrapped in single quotes, each
/// embedded single quote escaped as a closing quote, a backslashed quote and
/// a reopening quote.
#[verifier::external_body]
pub fn quote_word(s: &str) -> (r: String)
    ensures
        r@ == spec_quote(s@),
{
    shell_words::quote(s).into_owned()
}

/// The views of the split-out words.
pub open spec fn words_view(words: Seq<String>) -> Seq<Seq<char>> {
    words.map_values(|w: String| w@)
}

/// Splits a command line into words as a POSIX shell would, with word
/// expansions limited to quote removal.  Returns `None` exactly when the
/// line ends inside a quoted region.
pub fn split_words(s: &str) -> (r: Option<Vec<String>>)
    ensures
        match r {
            Some(ws) => spec_split(s@) == Some(words_view(ws@)),
            None => spec_split(s@) is None,
        },
{
    let input = str_chars(s);
    let n = input.len();
    let mut state = SplitState::Delimiter;
    let mut word: Vec<char> = Vec::new();
    let mut words: Vec<String> = Vec::new();
    let ghost mut gwords: Seq<Seq<char>> = Seq::<Seq<char>>::empty();
    let mut i: usize = 0;
    proof {
        assert(input@.skip(0) =~= input@);
    }
    while i < n
        invariant
            input@ == s@,
            n == input@.len(),
            i <= n,
            words_view(words@) == gwords,
            spec_split(input@) == split_from(input@.skip(i as int), state, word@, gwords),
        decreases n - i,
    {
        let c = input[i];
        proof {
            assert(input@.skip(i as int)[0] == c);
            assert(input@.skip(i as int).drop_first() =~= input@.skip(i as int + 1));
        }
        match state {
            SplitState::Delimiter => {
                if c == '\'' {
                    state = SplitState::SingleQuoted;
                } else if c == '"' {
                    state = SplitState::DoubleQuoted;
                } else if c == '\\' {
                    state = SplitState::Backslash;
                } else if c == '\t' || c == ' ' || c == '\n' {
                } else if c == '#' {
                    state = SplitState::Comment;
                } else {
                    word.push(c);
                    state = SplitState::Unquoted;
                }
            },
            SplitState::Backslash => {
                if c == '\n' {
                    state = SplitState::Delimiter;
                } else {
                    word.push(c);
                    state = SplitState::Unquoted;
                }
            },
            SplitState::Unquoted => {
                if c == '\'' {
                    state = SplitState::SingleQuoted;
                } else if c == '"' {
                    state = SplitState::DoubleQuoted;
                } else if c == '\\' {
                    state = SplitState::UnquotedBackslash;
                } else if c == '\t' || c == ' ' || c == '\n' {
                    words.push(chars_to_string(&word));
                    proof {
                        gwords = gwords.push(word@);
                        assert(words_view(words@) =~= gwords);
                    }
                    word = Vec::new();
                    state = SplitState::Delimiter;
                } else {
                    word.push(c);
                }
            },
            SplitState::UnquotedBackslash => {
                if c == '\n' {
                    state = SplitState::Unquoted;
                } else {
                    word.push(c);
                    state = SplitState::Unquoted;
                }
            },
            SplitState::SingleQuoted => {
                if c == '\'' {
                    state = SplitState::Unquoted;
                } else {
                    word.push(c);
                }
            },
            SplitState::DoubleQuoted => {
                if c == '"' {
                    state = SplitState::Unquoted;
                } else if c == '\\' {
                    state = SplitState::DoubleQuotedBackslash;
                } else {
                    word.push(c);
                }
            },
            SplitState::DoubleQuotedBackslash => {
                if c == '\n' {
                    state = SplitState::DoubleQuoted;
                } else if c == '$' || c == '`' || c == '"' || c == '\\' {
                    word.push(c);
                    state = SplitState::DoubleQuoted;
                } else {
                    word.push('\\');
                    word.push(c);
                    state = SplitState::DoubleQuoted;
                }
            },
            SplitState::Comment => {
                if c == '\n' {
                    state = SplitState::Delimiter;
                }
            },
        }
        i += 1;
    }
    proof {
        assert(input@.skip(n as int) =~= Seq::<char>::empty());
    }
    match state {
        SplitState::Delimiter | SplitState::Comment => Some(words),
        SplitState::Backslash | SplitState::UnquotedBackslash => {
            word.push('\\');
            words.push(chars_to_string(&word));
            proof {
                assert(words_view(words@) =~= gwords.push(word@));
            }
            Some(words)
        },
        SplitState::Unquoted => {
            words.push(chars_to_string(&word));
            proof {
                assert(words_view(words@) =~= gwords.push(word@));
            }
            Some(words)
        },
        SplitState::SingleQuoted
        | SplitState::DoubleQuoted
        | SplitState::DoubleQuotedBackslash => None,
    }
}

proof fn lemma_concat_head<T>(a: Seq<T>, b: Seq<T>)
    requires
        a.len() > 0,
    ensures
        (a + b).len() > 0,
        (a + b)[0] == a[0],
        (a + b).drop_first() == a.drop_first() + b,
{
    assert((a + b).drop_first() =~= a.drop_first() + b);
}

/// The machine in an unquoted word consumes a run of non-special characters
/// by appending them to the word.
proof fn lemma_consume_unquoted(w: Seq<char>, rest: Seq<char>, word: Seq<char>, words: Seq<Seq<char>>)
    requires
        forall|i: int| 0 <= i < w.len() ==> !is_special_char(w[i]),
    ensures
        split_from(w + rest, SplitState::Unquoted, word, words) == split_from(
            rest,
            SplitState::Unquoted,
            word + w,
            words,
        ),
    decreases w.len(),
{
    if w.len() == 0 {
        assert(w + rest =~= rest);
        assert(word + w =~= word);
    } else {
        let c = w[0];
        lemma_concat_head(w, rest);
        assert(!is_special_char(c));
        assert(split_from(w + rest, SplitState::Unquoted, word, words) == split_from(
            w.drop_first() + rest,
            SplitState::Unquoted,
            word.push(c),
            words,
        ));
        lemma_consume_unquoted(w.drop_first(), rest, word.push(c), words);
        assert(word.push(c) + w.drop_first() =~= word + w);
    }
}

/// The machine inside a single-quoted region consumes a run of characters
/// free of single quotes by appending them to the word.
proof fn lemma_consume_single(w: Seq<char>, rest: Seq<char>, word: Seq<char>, words: Seq<Seq<char>>)
    requires
        forall|i: int| 0 <= i < w.len() ==> w[i] != '\'',
    ensures
        split_from(w + rest, SplitState::SingleQuoted, word, words) == split_from(
            rest,
            SplitState::SingleQuoted,
            word + w,
            words,
        ),
    decreases w.len(),
{
    if w.len() == 0 {
        assert(w + rest =~= rest);
        assert(word + w =~= word);
    } else {
        let c = w[0];
        lemma_concat_head(w, rest);
        lemma_consume_single(w.drop_first(), rest, word.push(c), words);
        assert(word.push(c) + w.drop_first() =~= word + w);
    }
}

/// The machine inside a single-quoted region consumes the escaped form of a
/// word by appending the word's own characters.
proof fn lemma_consume_mixed(w: Seq<char>, rest: Seq<char>, word: Seq<char>, words: Seq<Seq<char>>)
    ensures
        split_from(mixed_escape(w) + rest, SplitState::SingleQuoted, word, words) == split_from(
            rest,
            SplitState::SingleQuoted,
            word + w,
            words,
        ),
    decreases w.len(),
{
    if w.len() == 0 {
        assert(mixed_escape(w) + rest =~= rest);
        assert(word + w =~= word);
    } else {
        let c = w[0];
        let tail = mixed_escape(w.drop_first());
        if c == '\'' {
            // The escape is: close the quote, backslash a quote, reopen.
            let e = seq!['\'', '\\', '\'', '\''];
            assert(mixed_escape(w) == e + tail);
            let s0 = e + tail + rest;
            assert(mixed_escape(w) + rest =~= s0);
            let s1 = seq!['\\', '\'', '\''] + tail + rest;
            let s2 = seq!['\'', '\''] + tail + rest;
            let s3 = seq!['\''] + tail + rest;
            let s4 = tail + rest;
            assert(s0.len() > 0 && s0[0] == '\'' && s0.drop_first() =~= s1);
            assert(s1.len() > 0 && s1[0] == '\\' && s1.drop_first() =~= s2);
            assert(s2.len() > 0 && s2[0] == '\'' && s2.drop_first() =~= s3);
            assert(s3.len() > 0 && s3[0] == '\'' && s3.drop_first() =~= s4);
            assert(split_from(s0, SplitState::SingleQuoted, word, words) == split_from(
                s1,
                SplitState::Unquoted,
                word,
                words,
            ));
            assert(split_from(s1, SplitState::Unquoted, word, words) == split_from(
                s2,
                SplitState::UnquotedBackslash,
                word,
                words,
            ));
            assert(split_from(s2, SplitState::UnquotedBackslash, word, words) == split_from(
                s3,
                SplitState::Unquoted,
                word.push('\''),
                words,
            ));
            assert(split_from(s3, SplitState::Unquoted, word.push('\''), words) == split_from(
                s4,
                SplitState::SingleQuoted,
                word.push('\''),
                words,
            ));
            lemma_consume_mixed(w.drop_first(), rest, word.push('\''), words);
            assert(word.push('\'') + w.drop_first() =~= word + w);
        } else {
            assert(mixed_escape(w) == seq![c] + tail);
            let s0 = mixed_escape(w) + rest;
            assert(s0.len() > 0 && s0[0] == c && s0.drop_first() =~= tail + rest);
            assert(split_from(s0, SplitState::SingleQuoted, word, words) == split_from(
                tail + rest,
                SplitState::SingleQuoted,
                word.push(c),
                words,
            ));
            lemma_consume_mixed(w.drop_first(), rest, word.push(c), words);
            assert(word.push(c) + w.drop_first() =~= word + w);
        }
    }
}

/// Starting between words, the machine consumes the quoted form of `w` and
/// stands in an unquoted word holding exactly `w`.
proof fn lemma_parse_quoted(w: Seq<char>, rest: Seq<char>, words: Seq<Seq<char>>)
    ensures
        split_from(spec_quote(w) + rest, SplitState::Delimiter, Seq::<char>::empty(), words)
            == split_from(rest, SplitState::Unquoted, w, words),
{
    let empty = Seq::<char>::empty();
    if w.len() == 0 {
        let s0 = spec_quote(w) + rest;
        let s1 = seq!['\''] + rest;
        assert(s0.len() > 0 && s0[0] == '\'' && s0.drop_first() =~= s1);
        assert(s1.len() > 0 && s1[0] == '\'' && s1.drop_first() =~= rest);
        assert(split_from(s1, SplitState::SingleQuoted, empty, words) == split_from(
            rest,
            SplitState::Unquoted,
            empty,
            words,
        ));
        assert(w =~= empty);
    } else if !has_special(w) {
        let c = w[0];
        assert(!is_special_char(c));
        let s0 = spec_quote(w) + rest;
        assert(spec_quote(w) == w);
        lemma_concat_head(w, rest);
        assert(split_from(s0, SplitState::Delimiter, empty, words) == split_from(
            w.drop_first() + rest,
            SplitState::Unquoted,
            empty.push(c),
            words,
        ));
        assert(forall|i: int| 0 <= i < w.drop_first().len() ==> !is_special_char(
            w.drop_first()[i],
        ));
        lemma_consume_unquoted(w.drop_first(), rest, empty.push(c), words);
        assert(empty.push(c) + w.drop_first() =~= w);
    } else if has_newline(w) && !has_single_quote(w) {
        let s0 = spec_quote(w) + rest;
        let s1 = w + (seq!['\''] + rest);
        assert(s0.len() > 0 && s0[0] == '\'' && s0.drop_first() =~= s1);
        assert(forall|i: int| 0 <= i < w.len() ==> w[i] != '\'');
        lemma_consume_single(w, seq!['\''] + rest, empty, words);
        let s2 = seq!['\''] + rest;
        assert(s2.len() > 0 && s2[0] == '\'' && s2.drop_first() =~= rest);
        assert(empty + w =~= w);
    } else {
        let s0 = spec_quote(w) + rest;
        let s1 = mixed_escape(w) + (seq!['\''] + rest);
        assert(s0.len() > 0 && s0[0] == '\'' && s0.drop_first() =~= s1);
        lemma_consume_mixed(w, seq!['\''] + rest, empty, words);
        let s2 = seq!['\''] + rest;
        assert(s2.len() > 0 && s2[0] == '\'' && s2.drop_first() =~= rest);
        assert(empty + w =~= w);
    }
}

/// After one finished word, the machine turns the rest of a rendered line
/// into exactly the remaining words.
proof fn lemma_split_render_tail(ws: Seq<Seq<char>>, w: Seq<char>, words: Seq<Seq<char>>)
    ensures
        split_from(spec_render_tail(ws), SplitState::Unquoted, w, words) == Some(
            words.push(w) + ws,
        ),
    decreases ws.len(),
{
    if ws.len() == 0 {
        assert(spec_render_tail(ws).len() == 0);
        assert(words.push(w) + ws =~= words.push(w));
    } else {
        let s0 = spec_render_tail(ws);
        let s1 = spec_quote(ws[0]) + spec_render_tail(ws.drop_first());
        assert(s0 =~= seq![' '] + s1);
        assert(s0.len() > 0 && s0[0] == ' ' && s0.drop_first() =~= s1);
        assert(split_from(s0, SplitState::Unquoted, w, words) == split_from(
            s1,
            SplitState::Delimiter,
            Seq::<char>::empty(),
            words.push(w),
        ));
        lemma_parse_quoted(ws[0], spec_render_tail(ws.drop_first()), words.push(w));
        lemma_split_render_tail(ws.drop_first(), ws[0], words.push(w));
        assert(words.push(w).push(ws[0]) + ws.drop_first() =~= words.push(w) + ws);
    }
}

/// Quoting round-trip: splitting a rendered command line with the POSIX
/// word splitter yields back exactly the original argument list, whatever
/// spaces, quotes and shell metacharacters the arguments hold.
pub proof fn lemma_quote_round_trip(ws: Seq<Seq<char>>)
    ensures
        spec_split(spec_render(ws)) == Some(ws),
{
    let empty_words = Seq::<Seq<char>>::empty();
    if ws.len() == 0 {
        assert(spec_render(ws).len() == 0);
        assert(spec_split(spec_render(ws)) == Some(empty_words));
        assert(ws =~= empty_words);
    } else {
        assert(spec_render(ws) == spec_quote(ws[0]) + spec_render_tail(ws.drop_first()));
        lemma_parse_quoted(ws[0], spec_render_tail(ws.drop_first()), empty_words);
        lemma_split_render_tail(ws.drop_first(), ws[0], empty_words);
        assert(empty_words.push(ws[0]) + ws.drop_first() =~= ws);
    }
}

} // verus!
