//! Character-level helpers shared by the quoting, logging and parsing code.
//!
//! All text logic in this crate works on `Vec<char>`, whose view is the same
//! `Seq<char>` that `str` and `String` views use; these helpers convert at
//! the boundary.

use vstd::prelude::*;

verus! {

/// The characters of `s`, in order.
pub fn str_chars(s: &str) -> (v: Vec<char>)
    ensures
        v@ == s@,
{
    let n = s.unicode_len();
    let mut v: Vec<char> = Vec::new();
    let mut i: usize = 0;
    while i < n
        invariant
            n == s@.len(),
            i <= n,
            v@ == s@.subrange(0, i as int),
        decreases n - i,
    {
        v.push(s.get_char(i));
        i += 1;
        proof {
            assert(v@ =~= s@.subrange(0, i as int));
        }
    }
    proof {
        assert(v@ =~= s@);
    }
    v
}

/// Relies on `String`'s `FromIterator<char>` impl: collecting characters
/// builds the string of exactly those characters, in order.
#[verifier::external_body]
pub fn chars_to_string(v: &Vec<char>) -> (s: String)
    ensures
        s@ == v@,
{
    v.iter().collect()
}

/// The decimal digit character for a value below ten.
pub open spec fn digit_char(d: int) -> char {
    if d == 0 {
        '0'
    } else if d == 1 {
        '1'
    } else if d == 2 {
        '2'
    } else if d == 3 {
        '3'
    } else if d == 4 {
        '4'
    } else if d == 5 {
        '5'
    } else if d == 6 {
        '6'
    } else if d == 7 {
        '7'
    } else if d == 8 {
        '8'
    } else {
        '9'
    }
}

/// The decimal digits of a non-negative number, most significant first.
pub open spec fn spec_nat_string(n: int) -> Seq<char>
    decreases n,
{
    if n < 10 {
        seq![digit_char(n)]
    } else {
        spec_nat_string(n / 10) + seq![digit_char(n % 10)]
    }
}

/// The decimal rendering of a signed number.
pub open spec fn spec_int_string(n: int) -> Seq<char> {
    if n < 0 {
        seq!['-'] + spec_nat_string(-n)
    } else {
        spec_nat_string(n)
    }
}

fn digit_char_exec(d: u64) -> (c: char)
    requires
        d < 10,
    ensures
        c == digit_char(d as int),
{
    match d {
        0 => '0',
        1 => '1',
        2 => '2',
        3 => '3',
        4 => '4',
        5 => '5',
        6 => '6',
        7 => '7',
        8 => '8',
        _ => '9',
    }
}

fn push_u64_digits(n: u64, out: &mut Vec<char>)
    ensures
        final(out)@ == old(out)@ + spec_nat_string(n as int),
    decreases n,
{
    if n < 10 {
        out.push(digit_char_exec(n));
        proof {
            assert(out@ =~= old(out)@ + spec_nat_string(n as int));
        }
    } else {
        proof {
            assert(n / 10 < n) by (nonlinear_arith)
                requires
                    n >= 10,
            ;
        }
        push_u64_digits(n / 10, out);
        out.push(digit_char_exec(n % 10));
        proof {
            assert(out@ =~= old(out)@ + spec_nat_string(n as int));
        }
    }
}

/// The decimal rendering of an unsigned number.
pub fn u64_to_string(n: u64) -> (r: String)
    ensures
        r@ == spec_nat_string(n as int),
{
    let mut v: Vec<char> = Vec::new();
    push_u64_digits(n, &mut v);
    proof {
        assert(v@ =~= spec_nat_string(n as int));
    }
    chars_to_string(&v)
}

/// The decimal rendering of a signed number.
pub fn i32_to_string(n: i32) -> (r: String)
    ensures
        r@ == spec_int_string(n as int),
{
    let mut v: Vec<char> = Vec::new();
    if n < 0 {
        v.push('-');
        let wide: i64 = n as i64;
        let m: u64 = (-wide) as u64;
        push_u64_digits(m, &mut v);
        proof {
            assert(v@ =~= spec_int_string(n as int));
        }
    } else {
        push_u64_digits(n as u64, &mut v);
        proof {
            assert(v@ =~= spec_int_string(n as int));
        }
    }
    chars_to_string(&v)
}

/// An ASCII whitespace character, as command output is trimmed of.
pub open spec fn is_ascii_ws(c: char) -> bool {
    c == ' ' || c == '\t' || c == '\n' || c == '\r'
}

/// `s` with leading ASCII whitespace removed.
pub open spec fn spec_trim_start(s: Seq<char>) -> Seq<char>
    decreases s.len(),
{
    if s.len() == 0 {
        s
    } else if is_ascii_ws(s[0]) {
        spec_trim_start(s.drop_first())
    } else {
        s
    }
}

/// `s` with trailing ASCII whitespace removed.
pub open spec fn spec_trim_end(s: Seq<char>) -> Seq<char>
    decreases s.len(),
{
    if s.len() == 0 {
        s
    } else if is_ascii_ws(s[s.len() - 1]) {
        spec_trim_end(s.drop_last())
    } else {
        s
    }
}

/// `s` with whitespace removed at both ends.
pub open spec fn spec_trim(s: Seq<char>) -> Seq<char> {
    spec_trim_end(spec_trim_start(s))
}

proof fn lemma_trim_start_skip(s: Seq<char>, i: int)
    requires
        0 <= i <= s.len(),
        forall|j: int| 0 <= j < i ==> is_ascii_ws(s[j]),
        i < s.len() ==> !is_ascii_ws(s[i]),
    ensures
        spec_trim_start(s) == s.skip(i),
    decreases i,
{
    if i == 0 {
        assert(s.skip(0) =~= s);
    } else {
        assert(is_ascii_ws(s[0]));
        lemma_trim_start_skip(s.drop_first(), i - 1);
        assert(s.drop_first().skip(i - 1) =~= s.skip(i));
    }
}

proof fn lemma_trim_end_take(s: Seq<char>, i: int)
    requires
        0 <= i <= s.len(),
        forall|j: int| i <= j < s.len() ==> is_ascii_ws(s[j]),
        i > 0 ==> !is_ascii_ws(s[i - 1]),
    ensures
        spec_trim_end(s) == s.take(i),
    decreases s.len() - i,
{
    if i == s.len() {
        assert(s.take(i) =~= s);
    } else {
        assert(is_ascii_ws(s[s.len() - 1]));
        lemma_trim_end_take(s.drop_last(), i);
        assert(s.drop_last().take(i) =~= s.take(i));
    }
}

/// Trims ASCII whitespace from both ends, as the value-reading commands do
/// to their captured output.
pub fn str_trim(s: &str) -> (r: String)
    ensures
        r@ == spec_trim(s@),
{
    let v = str_chars(s);
    let n = v.len();
    let mut a: usize = 0;
    while a < n && (v[a] == ' ' || v[a] == '\t' || v[a] == '\n' || v[a] == '\r')
        invariant
            n == v@.len(),
            a <= n,
            forall|j: int| 0 <= j < a ==> is_ascii_ws(v@[j]),
        decreases n - a,
    {
        a += 1;
    }
    proof {
        lemma_trim_start_skip(v@, a as int);
    }
    let mut b: usize = n;
    while b > a && (v[b - 1] == ' ' || v[b - 1] == '\t' || v[b - 1] == '\n' || v[b - 1] == '\r')
        invariant
            n == v@.len(),
            a <= b <= n,
            forall|j: int| b <= j < n ==> is_ascii_ws(v@[j]),
            forall|j: int| 0 <= j < a ==> is_ascii_ws(v@[j]),
            a < n ==> !is_ascii_ws(v@[a as int]),
        decreases b,
    {
        b -= 1;
    }
    let mut out: Vec<char> = Vec::new();
    let mut i: usize = a;
    while i < b
        invariant
            n == v@.len(),
            a <= i <= b <= n,
            out@ == v@.subrange(a as int, i as int),
        decreases b - i,
    {
        out.push(v[i]);
        i += 1;
        proof {
            assert(out@ =~= v@.subrange(a as int, i as int));
        }
    }
    proof {
        let skipped = v@.skip(a as int);
        if b == a {
            assert(forall|j: int| 0 <= j < skipped.len() ==> is_ascii_ws(skipped[j]));
            lemma_trim_end_take(skipped, 0);
        } else {
            assert(!is_ascii_ws(v@[b - 1]));
            assert(forall|j: int|
                b - a <= j < skipped.len() ==> is_ascii_ws(#[trigger] skipped[j]));
            lemma_trim_end_take(skipped, b - a);
        }
        assert(out@ =~= spec_trim_end(skipped));
    }
    chars_to_string(&out)
}

/// `needle` occurs in `hay` starting at position `at`.
pub open spec fn occurs_at(hay: Seq<char>, needle: Seq<char>, at: int) -> bool {
    &&& 0 <= at
    &&& at + needle.len() <= hay.len()
    &&& hay.subrange(at, at + needle.len()) == needle
}

/// `s` starts with `prefix`.
pub open spec fn spec_starts_with(s: Seq<char>, prefix: Seq<char>) -> bool {
    occurs_at(s, prefix, 0)
}

/// `s` ends with `suffix`.
pub open spec fn spec_ends_with(s: Seq<char>, suffix: Seq<char>) -> bool {
    occurs_at(s, suffix, s.len() - suffix.len())
}

/// Whether the characters of `a` from position `at` spell out `b`.
pub fn slice_matches_at(a: &Vec<char>, at: usize, b: &Vec<char>) -> (r: bool)
    requires
        at + b@.len() <= a@.len(),
    ensures
        r == occurs_at(a@, b@, at as int),
{
    let alen = a.len();
    let mut i: usize = 0;
    while i < b.len()
        invariant
            alen == a@.len(),
            at + b@.len() <= a@.len(),
            i <= b@.len(),
            forall|j: int| 0 <= j < i ==> a@[at + j] == b@[j],
        decreases b@.len() - i,
    {
        if a[at + i] != b[i] {
            proof {
                assert(a@.subrange(at as int, at + b@.len())[i as int] == a@[at + i]);
            }
            return false;
        }
        i += 1;
    }
    proof {
        assert(a@.subrange(at as int, at + b@.len()) =~= b@);
    }
    true
}

/// The lower-case form of an ASCII letter; every other character is left
/// alone.
pub open spec fn lower_char(c: char) -> char {
    if c == 'A' {
        'a'
    } else if c == 'B' {
        'b'
    } else if c == 'C' {
        'c'
    } else if c == 'D' {
        'd'
    } else if c == 'E' {
        'e'
    } else if c == 'F' {
        'f'
    } else if c == 'G' {
        'g'
    } else if c == 'H' {
        'h'
    } else if c == 'I' {
        'i'
    } else if c == 'J' {
        'j'
    } else if c == 'K' {
        'k'
    } else if c == 'L' {
        'l'
    } else if c == 'M' {
        'm'
    } else if c == 'N' {
        'n'
    } else if c == 'O' {
        'o'
    } else if c == 'P' {
        'p'
    } else if c == 'Q' {
        'q'
    } else if c == 'R' {
        'r'
    } else if c == 'S' {
        's'
    } else if c == 'T' {
        't'
    } else if c == 'U' {
        'u'
    } else if c == 'V' {
        'v'
    } else if c == 'W' {
        'w'
    } else if c == 'X' {
        'x'
    } else if c == 'Y' {
        'y'
    } else if c == 'Z' {
        'z'
    } else {
        c
    }
}

/// `s` with its ASCII letters lower-cased.
pub open spec fn spec_ascii_lower(s: Seq<char>) -> Seq<char> {
    s.map_values(|c: char| lower_char(c))
}

fn lower_char_exec(c: char) -> (r: char)
    ensures
        r == lower_char(c),
{
    match c {
        'A' => 'a',
        'B' => 'b',
        'C' => 'c',
        'D' => 'd',
        'E' => 'e',
        'F' => 'f',
        'G' => 'g',
        'H' => 'h',
        'I' => 'i',
        'J' => 'j',
        'K' => 'k',
        'L' => 'l',
        'M' => 'm',
        'N' => 'n',
        'O' => 'o',
        'P' => 'p',
        'Q' => 'q',
        'R' => 'r',
        'S' => 's',
        'T' => 't',
        'U' => 'u',
        'V' => 'v',
        'W' => 'w',
        'X' => 'x',
        'Y' => 'y',
        'Z' => 'z',
        other => other,
    }
}

/// Lower-cases the ASCII letters of `s`.
pub fn ascii_lower(s: &str) -> (r: String)
    ensures
        r@ == spec_ascii_lower(s@),
{
    let v = str_chars(s);
    let mut out: Vec<char> = Vec::new();
    let mut i: usize = 0;
    while i < v.len()
        invariant
            i <= v@.len(),
            out@ == spec_ascii_lower(v@.take(i as int)),
        decreases v@.len() - i,
    {
        out.push(lower_char_exec(v[i]));
        i += 1;
        proof {
            assert(out@ =~= spec_ascii_lower(v@.take(i as int)));
        }
    }
    proof {
        assert(v@.take(v@.len() as int) =~= v@);
    }
    chars_to_string(&out)
}

/// Character-for-character string equality.
pub fn str_eq(a: &str, b: &str) -> (r: bool)
    ensures
        r == (a@ == b@),
{
    let va = str_chars(a);
    let vb = str_chars(b);
    if va.len() != vb.len() {
        proof {
            assert(a@.len() != b@.len());
        }
        return false;
    }
    let m = slice_matches_at(&va, 0, &vb);
    proof {
        assert(va@.subrange(0, vb@.len() as int) =~= va@);
        if m {
            assert(a@ =~= b@);
        }
    }
    m
}

/// Whether some element of `hay` equals `needle`.
pub fn contains_str(hay: &Vec<String>, needle: &str) -> (r: bool)
    ensures
        r == (exists|i: int| 0 <= i < hay@.len() && hay@[i]@ == needle@),
{
    let mut i: usize = 0;
    while i < hay.len()
        invariant
            i <= hay@.len(),
            forall|j: int| 0 <= j < i ==> hay@[j]@ != needle@,
        decreases hay@.len() - i,
    {
        if str_eq(hay[i].as_str(), needle) {
            return true;
        }
        i += 1;
    }
    false
}

/// Whether `s` starts with `prefix`, over the characters.
pub fn starts_with_str(s: &str, prefix: &str) -> (r: bool)
    ensures
        r == spec_starts_with(s@, prefix@),
{
    let v = str_chars(s);
    let p = str_chars(prefix);
    if p.len() > v.len() {
        return false;
    }
    slice_matches_at(&v, 0, &p)
}

/// Whether `s` ends with `suffix`, over the characters.
pub fn ends_with_str(s: &str, suffix: &str) -> (r: bool)
    ensures
        r == spec_ends_with(s@, suffix@),
{
    let v = str_chars(s);
    let p = str_chars(suffix);
    if p.len() > v.len() {
        return false;
    }
    let at = v.len() - p.len();
    slice_matches_at(&v, at, &p)
}

/// `s` without a leading `affix` when one is there, otherwise `s` itself.
pub open spec fn spec_strip_prefix(s: Seq<char>, affix: Seq<char>) -> Seq<char> {
    if spec_starts_with(s, affix) {
        s.skip(affix.len() as int)
    } else {
        s
    }
}

/// `s` without a trailing `affix` when one is there, otherwise `s` itself.
pub open spec fn spec_strip_suffix(s: Seq<char>, affix: Seq<char>) -> Seq<char> {
    if spec_ends_with(s, affix) {
        s.take(s.len() - affix.len())
    } else {
        s
    }
}

/// The value of a string of decimal digits, or nothing when the string is
/// empty or holds a non-digit.
pub open spec fn spec_decimal_value(s: Seq<char>) -> Option<int>
    decreases s.len(),
{
    if s.len() == 0 {
        None
    } else if !('0' <= s[s.len() - 1] && s[s.len() - 1] <= '9') {
        None
    } else if s.len() == 1 {
        Some(s[0] as int - '0' as int)
    } else {
        match spec_decimal_value(s.drop_last()) {
            None => None,
            Some(hi) => Some(hi * 10 + (s[s.len() - 1] as int - '0' as int)),
        }
    }
}

/// Parses a decimal number, failing on an empty string, a non-digit, or a
/// value that does not fit — exactly the cases in which the standard parse
/// fails on an unsigned type of this width.
pub fn parse_u64(s: &str) -> (r: Option<u64>)
    ensures
        r matches Some(v) ==> spec_decimal_value(s@) == Some(v as int),
        r is None ==> (spec_decimal_value(s@) is None || (spec_decimal_value(s@) matches Some(v)
            && v > u64::MAX)),
{
    let v = str_chars(s);
    if v.len() == 0 {
        return None;
    }
    let mut acc: u64 = 0;
    let mut i: usize = 0;
    proof {
        assert(v@.take(0) =~= Seq::<char>::empty());
    }
    while i < v.len()
        invariant
            v@ == s@,
            i <= v@.len(),
            i > 0 ==> spec_decimal_value(v@.take(i as int)) == Some(acc as int),
            i == 0 ==> acc == 0,
        decreases v@.len() - i,
    {
        let c = v[i];
        let d: u64 = match c {
            '0' => 0,
            '1' => 1,
            '2' => 2,
            '3' => 3,
            '4' => 4,
            '5' => 5,
            '6' => 6,
            '7' => 7,
            '8' => 8,
            '9' => 9,
            _ => {
                proof {
                    lemma_decimal_nondigit(v@, i as int);
                }
                return None;
            },
        };
        proof {
            assert(d as int == c as int - '0' as int);
        }
        let next = match acc.checked_mul(10) {
            Some(t) => match t.checked_add(d) {
                Some(n) => n,
                None => {
                    proof {
                        lemma_decimal_grows(v@, i as int, acc as int, d as int);
                    }
                    return None;
                },
            },
            None => {
                proof {
                    lemma_decimal_grows(v@, i as int, acc as int, d as int);
                }
                return None;
            },
        };
        acc = next;
        i += 1;
        proof {
            assert(v@.take(i as int).drop_last() =~= v@.take(i as int - 1));
            assert(v@.take(i as int)[i as int - 1] == v@[i as int - 1]);
        }
    }
    proof {
        assert(v@.take(v@.len() as int) =~= v@);
    }
    Some(acc)
}

/// A non-digit anywhere makes the whole string parse to nothing.
proof fn lemma_decimal_nondigit(s: Seq<char>, i: int)
    requires
        0 <= i < s.len(),
        !('0' <= s[i] && s[i] <= '9'),
    ensures
        spec_decimal_value(s) is None,
    decreases s.len(),
{
    if s.len() == 0 {
    } else if i == s.len() - 1 {
    } else {
        lemma_decimal_nondigit(s.drop_last(), i);
    }
}

/// Once the accumulated value is past the limit after some prefix, the whole
/// string's value (when it exists) is past the limit too.
proof fn lemma_decimal_grows(s: Seq<char>, i: int, acc: int, d: int)
    requires
        0 <= i < s.len(),
        i > 0 ==> spec_decimal_value(s.take(i)) == Some(acc),
        i == 0 ==> acc == 0,
        0 <= d <= 9,
        d == s[i] as int - '0' as int,
        '0' <= s[i] && s[i] <= '9',
        acc * 10 + d > u64::MAX,
    ensures
        spec_decimal_value(s) matches Some(v) ==> v > u64::MAX,
    decreases s.len() - i,
{
    let w = s.take(i + 1);
    assert(w.drop_last() =~= s.take(i));
    assert(w[w.len() - 1] == s[i]);
    if i == 0 {
        assert(spec_decimal_value(w) == Some(d));
        assert(acc == 0);
    } else {
        assert(spec_decimal_value(w) == Some(acc * 10 + d));
    }
    lemma_decimal_extend_keeps_large(s, i + 1, acc * 10 + d);
}

/// Extending a digit string only makes its value larger.
proof fn lemma_decimal_extend_keeps_large(s: Seq<char>, k: int, bound: int)
    requires
        0 < k <= s.len(),
        spec_decimal_value(s.take(k)) matches Some(v) && v >= bound,
        bound >= 0,
    ensures
        spec_decimal_value(s) matches Some(v) ==> v >= bound,
    decreases s.len() - k,
{
    if k == s.len() {
        assert(s.take(k) =~= s);
    } else {
        let w = s.take(k + 1);
        assert(w.drop_last() =~= s.take(k));
        if '0' <= s[k] && s[k] <= '9' {
            assert(spec_decimal_value(w) matches Some(v2) && v2 >= bound) by {
                let prev = spec_decimal_value(s.take(k))->Some_0;
                assert(spec_decimal_value(w) == Some(
                    prev * 10 + (w[w.len() - 1] as int - '0' as int),
                ));
                assert(prev * 10 >= prev) by (nonlinear_arith)
                    requires
                        prev >= 0,
                ;
            }
            lemma_decimal_extend_keeps_large(s, k + 1, bound);
        } else {
            lemma_decimal_nondigit(s, k);
        }
    }
}

/// The lines of a text, as line-based configuration files are read: split at
/// each line feed, with one carriage return stripped from a line's end and
/// no final empty line after a trailing line feed.
pub open spec fn spec_lines(s: Seq<char>) -> Seq<Seq<char>>
    decreases s.len(),
{
    if s.len() == 0 {
        Seq::<Seq<char>>::empty()
    } else {
        let cut = spec_line_cut(s);
        if 0 <= cut < s.len() {
            seq![spec_strip_cr(s.take(cut))] + spec_lines(s.skip(cut + 1))
        } else {
            seq![spec_strip_cr(s)]
        }
    }
}

/// The index of the first line feed, or the length when there is none; the
/// skip above runs off the end harmlessly in the latter case.
pub open spec fn spec_line_cut(s: Seq<char>) -> int
    decreases s.len(),
{
    if s.len() == 0 {
        0int
    } else if s[0] == '\n' {
        0int
    } else {
        1 + spec_line_cut(s.drop_first())
    }
}

/// One trailing carriage return removed.
pub open spec fn spec_strip_cr(s: Seq<char>) -> Seq<char> {
    if s.len() > 0 && s[s.len() - 1] == '\r' {
        s.drop_last()
    } else {
        s
    }
}

/// The first line feed is where the recursive cut says.
proof fn lemma_line_cut_at(s: Seq<char>, k: int)
    requires
        0 <= k <= s.len(),
        forall|j: int| 0 <= j < k ==> s[j] != '\n',
        k < s.len() ==> s[k] == '\n',
    ensures
        spec_line_cut(s) == k,
    decreases k,
{
    if s.len() == 0 {
    } else if k == 0 {
    } else {
        assert(s[0] != '\n');
        let d = s.drop_first();
        assert(forall|j: int| 0 <= j < k - 1 ==> #[trigger] d[j] == s[j + 1]);
        lemma_line_cut_at(d, k - 1);
    }
}

/// Splits a text into lines: at each line feed, one trailing carriage
/// return stripped, no final empty line.
pub fn split_lines(s: &str) -> (r: Vec<String>)
    ensures
        r@.map_values(|x: String| x@) == spec_lines(s@),
{
    let v = str_chars(s);
    let n = v.len();
    let mut out: Vec<String> = Vec::new();
    let mut buf: Vec<char> = Vec::new();
    let mut i: usize = 0;
    let ghost mut start: int = 0;
    let ghost mut done: Seq<Seq<char>> = Seq::<Seq<char>>::empty();
    proof {
        assert(v@.skip(0) =~= v@);
        assert(done + spec_lines(v@) =~= spec_lines(v@));
        assert(buf@ =~= v@.subrange(0, 0));
    }
    while i < n
        invariant
            n == v@.len(),
            v@ == s@,
            i <= n,
            0 <= start <= i,
            buf@ == v@.subrange(start, i as int),
            forall|j: int| start <= j < i ==> v@[j] != '\n',
            out@.map_values(|x: String| x@) == done,
            spec_lines(v@) == done + spec_lines(v@.skip(start)),
        decreases n - i,
    {
        let c = v[i];
        if c == '\n' {
            // close the current line
            let line = finish_line(&buf);
            out.push(line);
            proof {
                let rest = v@.skip(start);
                assert(forall|j: int|
                    0 <= j < i - start ==> #[trigger] rest[j] == v@[j + start]);
                lemma_line_cut_at(rest, i - start);
                assert(rest.take(i - start) =~= v@.subrange(start, i as int));
                assert(rest.skip(i - start + 1) =~= v@.skip(i as int + 1));
                done = done.push(spec_strip_cr(buf@));
                assert(out@.map_values(|x: String| x@) =~= done);
                assert(done + spec_lines(v@.skip(i as int + 1)) =~= spec_lines(v@));
                start = i as int + 1;
            }
            buf = Vec::new();
            i += 1;
            proof {
                assert(buf@ =~= v@.subrange(start, i as int));
            }
        } else {
            buf.push(c);
            i += 1;
            proof {
                assert(buf@ =~= v@.subrange(start, i as int));
            }
        }
    }
    if buf.len() > 0 {
        let line = finish_line(&buf);
        out.push(line);
        proof {
            let rest = v@.skip(start);
            assert(rest =~= v@.subrange(start, n as int));
            assert(rest.len() > 0);
            assert(forall|j: int| 0 <= j < rest.len() ==> #[trigger] rest[j] == v@[j + start]);
            lemma_line_cut_at(rest, rest.len() as int);
            done = done.push(spec_strip_cr(buf@));
            assert(out@.map_values(|x: String| x@) =~= done);
            assert(done =~= spec_lines(v@));
        }
    } else {
        proof {
            assert(v@.skip(start) =~= Seq::<char>::empty());
            assert(done + spec_lines(v@.skip(start)) =~= done);
        }
    }
    out
}

/// One finished raw line, its trailing carriage return stripped.
fn finish_line(buf: &Vec<char>) -> (r: String)
    ensures
        r@ == spec_strip_cr(buf@),
{
    if buf.len() > 0 && buf[buf.len() - 1] == '\r' {
        let mut copy: Vec<char> = Vec::new();
        let mut k: usize = 0;
        let last = buf.len() - 1;
        while k < last
            invariant
                last < buf@.len(),
                k <= last,
                copy@ == buf@.subrange(0, k as int),
            decreases last - k,
        {
            copy.push(buf[k]);
            k += 1;
            proof {
                assert(copy@ =~= buf@.subrange(0, k as int));
            }
        }
        proof {
            assert(copy@ =~= buf@.drop_last());
        }
        chars_to_string(&copy)
    } else {
        chars_to_string(buf)
    }
}

/// The index of the first whitespace character, or the length when there is
/// none.
pub open spec fn spec_token_cut(s: Seq<char>) -> int
    decreases s.len(),
{
    if s.len() == 0 {
        0int
    } else if is_ascii_ws(s[0]) {
        0int
    } else {
        1 + spec_token_cut(s.drop_first())
    }
}

/// The whitespace-separated tokens of a string, in order.
pub open spec fn spec_ws_tokens(s: Seq<char>) -> Seq<Seq<char>>
    decreases s.len(),
{
    if s.len() == 0 {
        Seq::<Seq<char>>::empty()
    } else if is_ascii_ws(s[0]) {
        spec_ws_tokens(s.drop_first())
    } else {
        let cut = spec_token_cut(s);
        if 0 < cut < s.len() {
            seq![s.take(cut)] + spec_ws_tokens(s.skip(cut))
        } else {
            seq![s]
        }
    }
}

/// The first whitespace is where the recursive cut says.
proof fn lemma_token_cut_at(s: Seq<char>, k: int)
    requires
        0 <= k <= s.len(),
        forall|j: int| 0 <= j < k ==> !is_ascii_ws(s[j]),
        k < s.len() ==> is_ascii_ws(s[k]),
    ensures
        spec_token_cut(s) == k,
    decreases k,
{
    if s.len() == 0 {
    } else if k == 0 {
    } else {
        assert(!is_ascii_ws(s[0]));
        let d = s.drop_first();
        assert(forall|j: int| 0 <= j < k - 1 ==> #[trigger] d[j] == s[j + 1]);
        lemma_token_cut_at(d, k - 1);
    }
}

/// Consuming leading whitespace leaves the tokens unchanged.
proof fn lemma_ws_tokens_skip_ws(s: Seq<char>, i: int)
    requires
        0 <= i <= s.len(),
        forall|j: int| 0 <= j < i ==> is_ascii_ws(s[j]),
    ensures
        spec_ws_tokens(s) == spec_ws_tokens(s.skip(i)),
    decreases i,
{
    if i == 0 {
        assert(s.skip(0) =~= s);
    } else {
        assert(is_ascii_ws(s[0]));
        let d = s.drop_first();
        assert(forall|j: int| 0 <= j < i - 1 ==> #[trigger] d[j] == s[j + 1]);
        lemma_ws_tokens_skip_ws(d, i - 1);
        assert(d.skip(i - 1) =~= s.skip(i));
    }
}

/// Splits a string at runs of ASCII whitespace.
pub fn split_ws_tokens(s: &str) -> (r: Vec<String>)
    ensures
        r@.map_values(|x: String| x@) == spec_ws_tokens(s@),
{
    let v = str_chars(s);
    let n = v.len();
    let mut out: Vec<String> = Vec::new();
    let mut buf: Vec<char> = Vec::new();
    let mut i: usize = 0;
    let ghost mut start: int = 0;
    let ghost mut done: Seq<Seq<char>> = Seq::<Seq<char>>::empty();
    proof {
        assert(v@.skip(0) =~= v@);
        assert(done + spec_ws_tokens(v@) =~= spec_ws_tokens(v@));
        assert(buf@ =~= v@.subrange(0, 0));
    }
    while i < n
        invariant
            n == v@.len(),
            v@ == s@,
            i <= n,
            0 <= start <= i,
            buf@ == v@.subrange(start, i as int),
            buf@.len() == 0 ==> start == i,
            forall|j: int| start <= j < i ==> !is_ascii_ws(v@[j]),
            out@.map_values(|x: String| x@) == done,
            spec_ws_tokens(v@) == done + spec_ws_tokens(v@.skip(start)),
        decreases n - i,
    {
        let c = v[i];
        if c == ' ' || c == '\t' || c == '\n' || c == '\r' {
            if buf.len() > 0 {
                out.push(chars_to_string(&buf));
                proof {
                    let rest = v@.skip(start);
                    assert(forall|j: int|
                        0 <= j < rest.len() ==> #[trigger] rest[j] == v@[j + start]);
                    lemma_token_cut_at(rest, i - start);
                    assert(!is_ascii_ws(rest[0]));
                    assert(rest.take(i - start) =~= v@.subrange(start, i as int));
                    assert(rest.skip(i - start) =~= v@.skip(i as int));
                    done = done.push(buf@);
                    assert(out@.map_values(|x: String| x@) =~= done);
                    assert(done + spec_ws_tokens(v@.skip(i as int)) =~= spec_ws_tokens(v@));
                    start = i as int;
                }
                buf = Vec::new();
            }
            proof {
                let rest = v@.skip(start);
                assert(is_ascii_ws(rest[0]));
                assert(rest.drop_first() =~= v@.skip(start + 1));
                start = start + 1;
            }
            i += 1;
            proof {
                assert(buf@ =~= v@.subrange(start, i as int));
            }
        } else {
            buf.push(c);
            i += 1;
            proof {
                assert(buf@ =~= v@.subrange(start, i as int));
            }
        }
    }
    if buf.len() > 0 {
        out.push(chars_to_string(&buf));
        proof {
            let rest = v@.skip(start);
            assert(forall|j: int| 0 <= j < rest.len() ==> #[trigger] rest[j] == v@[j + start]);
            lemma_token_cut_at(rest, rest.len() as int);
            assert(!is_ascii_ws(rest[0]));
            assert(rest =~= buf@);
            done = done.push(buf@);
            assert(out@.map_values(|x: String| x@) =~= done);
            assert(done =~= spec_ws_tokens(v@));
        }
    } else {
        proof {
            assert(v@.skip(start) =~= Seq::<char>::empty());
            assert(done + spec_ws_tokens(v@.skip(start)) =~= done);
        }
    }
    out
}

/// Lexicographic order on character sequences, by code point; a proper
/// prefix comes first.
pub open spec fn spec_str_le(a: Seq<char>, b: Seq<char>) -> bool
    decreases a.len(),
{
    if a.len() == 0 {
        true
    } else if b.len() == 0 {
        false
    } else if a[0] == b[0] {
        spec_str_le(a.drop_first(), b.drop_first())
    } else {
        (a[0] as u32) < (b[0] as u32)
    }
}

/// The order is total: one of the two directions always holds.
pub proof fn lemma_str_le_total(a: Seq<char>, b: Seq<char>)
    ensures
        spec_str_le(a, b) || spec_str_le(b, a),
    decreases a.len(),
{
    if a.len() == 0 {
    } else if b.len() == 0 {
    } else if a[0] == b[0] {
        lemma_str_le_total(a.drop_first(), b.drop_first());
    } else {
        // distinct characters have distinct code points
        vstd::utf8::char_u32_cast(a[0], a[0] as u32);
        vstd::utf8::char_u32_cast(b[0], b[0] as u32);
        assert((a[0] as u32) != (b[0] as u32));
    }
}

/// The order is transitive.
pub proof fn lemma_str_le_trans(a: Seq<char>, b: Seq<char>, c: Seq<char>)
    requires
        spec_str_le(a, b),
        spec_str_le(b, c),
    ensures
        spec_str_le(a, c),
    decreases a.len(),
{
    if a.len() == 0 {
    } else if b.len() == 0 {
    } else if c.len() == 0 {
    } else if a[0] == b[0] && b[0] == c[0] {
        lemma_str_le_trans(a.drop_first(), b.drop_first(), c.drop_first());
    }
}

/// After an equal prefix, the order is decided by the remainders.
proof fn lemma_str_le_skip(a: Seq<char>, b: Seq<char>, i: int)
    requires
        0 <= i <= a.len(),
        i <= b.len(),
        forall|j: int| 0 <= j < i ==> a[j] == b[j],
    ensures
        spec_str_le(a, b) == spec_str_le(a.skip(i), b.skip(i)),
    decreases i,
{
    if i == 0 {
        assert(a.skip(0) =~= a);
        assert(b.skip(0) =~= b);
    } else {
        assert(a[0] == b[0]);
        let da = a.drop_first();
        let db = b.drop_first();
        assert(forall|j: int| 0 <= j < i - 1 ==> #[trigger] da[j] == a[j + 1]);
        assert(forall|j: int| 0 <= j < i - 1 ==> #[trigger] db[j] == b[j + 1]);
        lemma_str_le_skip(da, db, i - 1);
        assert(da.skip(i - 1) =~= a.skip(i));
        assert(db.skip(i - 1) =~= b.skip(i));
    }
}

/// Compares two strings in the lexicographic order.
pub fn str_le(a: &str, b: &str) -> (r: bool)
    ensures
        r == spec_str_le(a@, b@),
{
    let va = str_chars(a);
    let vb = str_chars(b);
    let na = va.len();
    let nb = vb.len();
    let mut i: usize = 0;
    while i < na && i < nb && va[i] == vb[i]
        invariant
            na == va@.len(),
            nb == vb@.len(),
            va@ == a@,
            vb@ == b@,
            i <= na,
            i <= nb,
            forall|j: int| 0 <= j < i ==> va@[j] == vb@[j],
        decreases na - i,
    {
        i += 1;
    }
    proof {
        lemma_str_le_skip(a@, b@, i as int);
    }
    if i < na && i < nb {
        proof {
            assert(a@.skip(i as int)[0] == a@[i as int]);
            assert(b@.skip(i as int)[0] == b@[i as int]);
        }
        (va[i] as u32) < (vb[i] as u32)
    } else {
        proof {
            if i == na {
                assert(a@.skip(i as int).len() == 0);
            } else {
                assert(b@.skip(i as int).len() == 0);
                assert(a@.skip(i as int).len() > 0);
            }
        }
        na <= nb
    }
}

} // verus!
