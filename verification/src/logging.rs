//! Report and log-line assembly.
//!
//! Everything here computes text; printing it, and colouring it, happens
//! outside the library.  A fatal error's report shows the command line, the
//! nested cause, and — exactly once — whatever output was captured, indented
//! line by line for readability.

use vstd::prelude::*;

use crate::cmdline::CommandLine;
use crate::outcome::CapturedOutput;
use crate::outcome::CommandError;
use crate::outcome::RawExit;
use crate::strutil::chars_to_string;
use crate::strutil::i32_to_string;
use crate::strutil::spec_int_string;
use crate::strutil::str_chars;

verus! {

/// The body of an indented block: the text itself, with the prefix repeated
/// after every line break that more text follows.
pub open spec fn spec_indent_rest(text: Seq<char>, prefix: Seq<char>) -> Seq<char>
    decreases text.len(),
{
    if text.len() == 0 {
        Seq::<char>::empty()
    } else if text[0] == '\n' && text.len() > 1 {
        seq!['\n'] + prefix + spec_indent_rest(text.drop_first(), prefix)
    } else {
        seq![text[0]] + spec_indent_rest(text.drop_first(), prefix)
    }
}

/// The text with `prefix` before each of its lines; empty text stays empty.
pub open spec fn spec_indent(text: Seq<char>, prefix: Seq<char>) -> Seq<char> {
    if text.len() == 0 {
        Seq::<char>::empty()
    } else {
        prefix + spec_indent_rest(text, prefix)
    }
}

/// Prefixes every line of `text` with `prefix`.
pub fn indent_lines(text: &str, prefix: &str) -> (r: String)
    ensures
        r@ == spec_indent(text@, prefix@),
{
    let chars = str_chars(text);
    let pfx = str_chars(prefix);
    let n = chars.len();
    if n == 0 {
        return String::new();
    }
    let mut out: Vec<char> = Vec::new();
    let mut k: usize = 0;
    while k < pfx.len()
        invariant
            k <= pfx@.len(),
            out@ == pfx@.subrange(0, k as int),
        decreases pfx@.len() - k,
    {
        out.push(pfx[k]);
        k += 1;
        proof {
            assert(out@ =~= pfx@.subrange(0, k as int));
        }
    }
    proof {
        assert(out@ =~= pfx@);
        assert(chars@.skip(0) =~= chars@);
    }
    let mut i: usize = 0;
    while i < n
        invariant
            n == chars@.len(),
            n > 0,
            pfx@ == prefix@,
            chars@ == text@,
            i <= n,
            spec_indent(chars@, pfx@) == out@ + spec_indent_rest(chars@.skip(i as int), pfx@),
        decreases n - i,
    {
        let c = chars[i];
        proof {
            assert(chars@.skip(i as int)[0] == c);
            assert(chars@.skip(i as int).drop_first() =~= chars@.skip(i as int + 1));
        }
        out.push(c);
        if c == '\n' && i + 1 < n {
            let mut k2: usize = 0;
            let ghost mid = out@;
            while k2 < pfx.len()
                invariant
                    k2 <= pfx@.len(),
                    out@ == mid + pfx@.subrange(0, k2 as int),
                decreases pfx@.len() - k2,
            {
                out.push(pfx[k2]);
                k2 += 1;
                proof {
                    assert(out@ =~= mid + pfx@.subrange(0, k2 as int));
                }
            }
            proof {
                assert(pfx@.subrange(0, pfx@.len() as int) =~= pfx@);
                assert(out@ =~= mid + pfx@);
            }
        }
        i += 1;
        proof {
            assert(spec_indent(chars@, pfx@) == out@ + spec_indent_rest(
                chars@.skip(i as int),
                pfx@,
            ));
        }
    }
    proof {
        assert(chars@.skip(n as int) =~= Seq::<char>::empty());
        assert(out@ + Seq::<char>::empty() =~= out@);
    }
    chars_to_string(&out)
}

/// How exit facts read in a report.
pub open spec fn spec_exit_text(rc: RawExit) -> Seq<char> {
    match rc.code {
        Some(c) => "exit status: "@ + spec_int_string(c as int),
        None => "terminated abnormally"@,
    }
}

/// Renders exit facts for a report.
pub fn exit_text(rc: &RawExit) -> (r: String)
    ensures
        r@ == spec_exit_text(*rc),
{
    match rc.code {
        Some(c) => {
            let mut out = String::new();
            out.append("exit status: ");
            let digits = i32_to_string(c);
            out.append(digits.as_str());
            proof {
                assert(out@ =~= spec_exit_text(*rc));
            }
            out
        },
        None => {
            let mut out = String::new();
            out.append("terminated abnormally");
            proof {
                assert(out@ =~= spec_exit_text(*rc));
            }
            out
        },
    }
}

/// The first line of an error report.
pub open spec fn spec_headline(e: &CommandError) -> Seq<char> {
    match e {
        CommandError::Startup { cmdline, .. } => "failed to run "@
            + cmdline.spec_display_marked(),
        CommandError::Exit { cmdline, rc, .. } => "command "@ + cmdline.spec_display_marked()
            + " failed: "@ + spec_exit_text(*rc),
        CommandError::Decode { cmdline } => "output of "@ + cmdline.spec_display_marked()
            + " was not valid text"@,
        CommandError::Drain { cmdline, .. } => "failed to read output of "@
            + cmdline.spec_display_marked(),
        CommandError::Wait { cmdline, .. } => "failed to wait for "@
            + cmdline.spec_display_marked(),
    }
}

/// The indented blocks showing what the failing command printed.  The merged
/// transcript, or each separate stream, appears as one block — and so at
/// most once — and an empty capture shows nothing.
pub open spec fn spec_output_block(output: &CapturedOutput) -> Seq<Seq<char>> {
    match output {
        CapturedOutput::NoneCaptured => Seq::<Seq<char>>::empty(),
        CapturedOutput::Combined(t) => if t@.len() == 0 {
            Seq::<Seq<char>>::empty()
        } else {
            seq![spec_indent(t@, "[output] "@)]
        },
        CapturedOutput::Separate { stdout, stderr } => (if stdout@.len() > 0 {
            seq![spec_indent(stdout@, "[stdout] "@)]
        } else {
            Seq::<Seq<char>>::empty()
        }) + (if stderr@.len() > 0 {
            seq![spec_indent(stderr@, "[stderr] "@)]
        } else {
            Seq::<Seq<char>>::empty()
        }),
    }
}

/// The whole report of a command error, line blocks in order: the headline,
/// then the nested cause for launch-machinery failures, then the captured
/// output blocks for an exit failure.
pub open spec fn spec_report(e: &CommandError) -> Seq<Seq<char>> {
    match e {
        CommandError::Startup { source, .. } => seq![
            spec_headline(e),
            "caused by: "@ + source.message@,
        ],
        CommandError::Drain { source, .. } => seq![
            spec_headline(e),
            "caused by: "@ + source.message@,
        ],
        CommandError::Wait { source, .. } => seq![
            spec_headline(e),
            "caused by: "@ + source.message@,
        ],
        CommandError::Decode { .. } => seq![spec_headline(e)],
        CommandError::Exit { output, .. } => seq![spec_headline(e)] + spec_output_block(output),
    }
}

impl CommandError {
    /// Builds the report's first line: what failed, with the marked command
    /// line and, for an exit failure, the exit facts.
    pub fn headline(&self) -> (r: String)
        ensures
            r@ == spec_headline(self),
    {
        let mut head = String::new();
        match self {
            CommandError::Startup { cmdline, .. } => {
                head.append("failed to run ");
                let marked = cmdline.display_marked();
                head.append(marked.as_str());
            },
            CommandError::Exit { cmdline, rc, .. } => {
                head.append("command ");
                let marked = cmdline.display_marked();
                head.append(marked.as_str());
                head.append(" failed: ");
                let rctext = exit_text(rc);
                head.append(rctext.as_str());
            },
            CommandError::Decode { cmdline } => {
                head.append("output of ");
                let marked = cmdline.display_marked();
                head.append(marked.as_str());
                head.append(" was not valid text");
            },
            CommandError::Drain { cmdline, .. } => {
                head.append("failed to read output of ");
                let marked = cmdline.display_marked();
                head.append(marked.as_str());
            },
            CommandError::Wait { cmdline, .. } => {
                head.append("failed to wait for ");
                let marked = cmdline.display_marked();
                head.append(marked.as_str());
            },
        }
        proof {
            assert(head@ =~= spec_headline(self));
        }
        head
    }

    /// Builds the report a fatal error prints: headline, cause, captured
    /// output, one list entry per block.
    pub fn report_lines(&self) -> (r: Vec<String>)
        ensures
            r@.map_values(|s: String| s@) == spec_report(self),
    {
        let mut lines: Vec<String> = Vec::new();
        lines.push(self.headline());
        match self {
            CommandError::Startup { source, .. } => {
                let mut cause = String::new();
                cause.append("caused by: ");
                cause.append(source.message.as_str());
                lines.push(cause);
            },
            CommandError::Drain { source, .. } => {
                let mut cause = String::new();
                cause.append("caused by: ");
                cause.append(source.message.as_str());
                lines.push(cause);
            },
            CommandError::Wait { source, .. } => {
                let mut cause = String::new();
                cause.append("caused by: ");
                cause.append(source.message.as_str());
                lines.push(cause);
            },
            CommandError::Decode { .. } => {},
            CommandError::Exit { output, .. } => {
                match output {
                    CapturedOutput::NoneCaptured => {},
                    CapturedOutput::Combined(t) => {
                        if t.as_str().unicode_len() > 0 {
                            lines.push(indent_lines(t.as_str(), "[output] "));
                        }
                    },
                    CapturedOutput::Separate { stdout, stderr } => {
                        if stdout.as_str().unicode_len() > 0 {
                            lines.push(indent_lines(stdout.as_str(), "[stdout] "));
                        }
                        if stderr.as_str().unicode_len() > 0 {
                            lines.push(indent_lines(stderr.as_str(), "[stderr] "));
                        }
                    },
                }
            },
        }
        proof {
            assert(lines@.map_values(|s: String| s@) =~= spec_report(self));
        }
        lines
    }
}

/// Quiet-failure report shape: a combined-capture exit failure with a
/// non-empty transcript reports exactly two blocks — the headline and the
/// indented transcript — so the captured output is shown exactly once, in
/// full.
pub proof fn lemma_failure_transcript_once(e: &CommandError)
    requires
        e matches CommandError::Exit { output: CapturedOutput::Combined(t), .. } && t@.len() > 0,
    ensures
        e matches CommandError::Exit { output: CapturedOutput::Combined(t), .. } ==> spec_report(
            e,
        ) == seq![spec_headline(e), spec_indent(t@, "[output] "@)],
{
    match e {
        CommandError::Exit { output, .. } => {
            match output {
                CapturedOutput::Combined(t) => {
                    assert(seq![spec_headline(e)] + spec_output_block(output) =~= seq![
                        spec_headline(e),
                        spec_indent(t@, "[output] "@),
                    ]);
                },
                _ => {},
            }
        },
        _ => {},
    }
}

/// The line echoed before a command runs: a plus sign, then the rendered
/// command line.
pub fn cmd_echo_line(cmdline: &CommandLine) -> (r: String)
    ensures
        r@ == "+"@ + cmdline.spec_display(),
{
    let mut out = String::new();
    out.append("+");
    let shown = cmdline.display();
    out.append(shown.as_str());
    out
}

/// The module path segment before the first `::`, or the whole target when
/// it has none.
pub open spec fn spec_top_module(s: Seq<char>) -> Seq<char>
    decreases s.len(),
{
    if s.len() < 2 {
        s
    } else if s[0] == ':' && s[1] == ':' {
        Seq::<char>::empty()
    } else {
        seq![s[0]] + spec_top_module(s.drop_first())
    }
}

/// Whether a log record's target belongs to the HTTP transport whose debug
/// records the logger lets through.
pub fn log_target_enabled(target: &str) -> (r: bool)
    ensures
        r == (spec_top_module(target@) == "minigh"@),
{
    let v = str_chars(target);
    let n = v.len();
    let mut i: usize = 0;
    while i + 1 < n && !(v[i] == ':' && v[i + 1] == ':')
        invariant
            n == v@.len(),
            i == 0 || i < n,
            i <= n,
            forall|j: int|
                0 <= j < i && j + 1 < n ==> !(#[trigger] v@[j] == ':' && v@[j + 1] == ':'),
        decreases n - i,
    {
        i += 1;
    }
    proof {
        lemma_top_module_take(v@, i as int);
    }
    let expected = str_chars("minigh");
    proof {
        reveal_strlit("minigh");
    }
    if i + 1 < n {
        // the target has a separator at `i`; its top segment is the prefix
        if i != expected.len() {
            return false;
        }
        let m = crate::strutil::slice_matches_at(&v, 0, &expected);
        proof {
            assert(v@.subrange(0, expected@.len() as int) =~= v@.take(i as int));
        }
        m
    } else {
        // no separator: the whole target is the top segment
        if n != expected.len() {
            return false;
        }
        let m = crate::strutil::slice_matches_at(&v, 0, &expected);
        proof {
            assert(v@.subrange(0, expected@.len() as int) =~= v@);
        }
        m
    }
}

/// The top segment is the prefix before the first separator; scanning past
/// position `i` with no separator seen leaves the prefix up to `i`.
proof fn lemma_top_module_take(s: Seq<char>, i: int)
    requires
        0 <= i <= s.len(),
        forall|j: int|
            0 <= j < i && j + 1 < s.len() ==> !(#[trigger] s[j] == ':' && s[j + 1] == ':'),
        i + 1 < s.len() ==> s[i] == ':' && s[i + 1] == ':',
    ensures
        i + 1 < s.len() ==> spec_top_module(s) == s.take(i),
        i + 1 >= s.len() ==> spec_top_module(s) == s,
    decreases i,
{
    if i == 0 {
        assert(s.take(0) =~= Seq::<char>::empty());
    } else if s.len() < 2 {
        // one character at most: there is no separator and the segment is
        // the whole target
    } else {
        assert(!(s[0] == ':' && s[1] == ':'));
        let d = s.drop_first();
        assert forall|j: int| 0 <= j < i - 1 && j + 1 < d.len() implies !(#[trigger] d[j] == ':'
            && d[j + 1] == ':') by {
            assert(d[j] == s[j + 1]);
            assert(d[j + 1] == s[j + 2]);
            assert(!(s[j + 1] == ':' && s[j + 2] == ':'));
        }
        lemma_top_module_take(d, i - 1);
        if i + 1 < s.len() {
            assert(seq![s[0]] + d.take(i - 1) =~= s.take(i));
        } else {
            assert(seq![s[0]] + d =~= s);
        }
    }
}

} // verus!
