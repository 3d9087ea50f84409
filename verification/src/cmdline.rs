//! The logged, shell-quoted textual rendering of a program invocation.
//!
//! A `CommandLine` is a read-only projection of a command: the quoted words
//! joined by spaces, plus the working directory when one was set.  Its
//! invariant ties the text to the ghost word list, so the quoting round-trip
//! law of `crate::quoting` applies to every rendered line.

use vstd::prelude::*;

use crate::quoting::lemma_quote_round_trip;
use crate::quoting::quote_word;
use crate::quoting::spec_quote;
use crate::quoting::spec_render;
use crate::quoting::spec_render_tail;
use crate::quoting::spec_split;

verus! {

/// Appending one more word extends the rendered line by a space and the
/// word's quoted form.
pub proof fn lemma_render_push(ws: Seq<Seq<char>>, w: Seq<char>)
    requires
        ws.len() > 0,
    ensures
        spec_render(ws.push(w)) == spec_render(ws) + seq![' '] + spec_quote(w),
{
    lemma_render_tail_push(ws.drop_first(), w);
    assert(ws.push(w).drop_first() =~= ws.drop_first().push(w));
    assert(spec_render(ws.push(w)) == spec_quote(ws[0]) + spec_render_tail(
        ws.drop_first().push(w),
    ));
    assert(spec_render(ws) == spec_quote(ws[0]) + spec_render_tail(ws.drop_first()));
    assert(spec_render(ws.push(w)) =~= spec_render(ws) + seq![' '] + spec_quote(w));
}

proof fn lemma_render_tail_push(ws: Seq<Seq<char>>, w: Seq<char>)
    ensures
        spec_render_tail(ws.push(w)) == spec_render_tail(ws) + seq![' '] + spec_quote(w),
    decreases ws.len(),
{
    if ws.len() == 0 {
        let empty = Seq::<Seq<char>>::empty();
        assert(ws.push(w).drop_first() =~= empty);
        assert(spec_render_tail(empty) == Seq::<char>::empty());
        assert(spec_render_tail(ws.push(w)) == seq![' '] + spec_quote(w) + spec_render_tail(
            empty,
        ));
        assert(spec_render_tail(ws) == Seq::<char>::empty());
        assert(spec_render_tail(ws.push(w)) =~= spec_render_tail(ws) + seq![' ']
            + spec_quote(w));
    } else {
        lemma_render_tail_push(ws.drop_first(), w);
        assert(ws.push(w).drop_first() =~= ws.drop_first().push(w));
        assert(spec_render_tail(ws.push(w)) == seq![' '] + spec_quote(ws[0])
            + spec_render_tail(ws.drop_first().push(w)));
        assert(spec_render_tail(ws) == seq![' '] + spec_quote(ws[0]) + spec_render_tail(
            ws.drop_first(),
        ));
        assert(spec_render_tail(ws.push(w)) =~= spec_render_tail(ws) + seq![' ']
            + spec_quote(w));
    }
}

/// A well-formed command line re-parses to exactly its words: the rendered
/// text, split by the POSIX word splitter, gives back the program and the
/// arguments it was built from.
pub proof fn lemma_command_line_round_trip(cl: &CommandLine)
    requires
        cl.well_formed(),
    ensures
        spec_split(cl.spec_line()) == Some(cl.spec_words()),
{
    lemma_quote_round_trip(cl.spec_words());
}

/// The shell-quoted, human-legible rendering of a command, kept alongside
/// the working directory it will run in.  Used for logging and error
/// messages only.
pub struct CommandLine {
    pub line: String,
    pub cwd: Option<String>,
    pub words: Ghost<Seq<Seq<char>>>,
}

impl Clone for CommandLine {
    /// A clone is the same line, word for word.
    fn clone(&self) -> (r: Self)
        ensures
            r == *self,
    {
        let cwd = match &self.cwd {
            Some(d) => Some(d.clone()),
            None => None,
        };
        CommandLine { line: self.line.clone(), cwd, words: Ghost(self.words@) }
    }
}

impl CommandLine {
    /// The words (program, then arguments) this line renders.
    pub open spec fn spec_words(&self) -> Seq<Seq<char>> {
        self.words@
    }

    /// The working directory recorded on the line, if any.
    pub open spec fn spec_cwd(&self) -> Option<Seq<char>> {
        match self.cwd {
            Some(ref d) => Some(d@),
            None => None,
        }
    }

    /// The rendered text of the line proper (without the directory suffix).
    pub open spec fn spec_line(&self) -> Seq<char> {
        self.line@
    }

    /// The text is exactly the rendering of the recorded words.
    pub open spec fn well_formed(&self) -> bool {
        &&& self.line@ == spec_render(self.words@)
        &&& self.words@.len() > 0
    }

    /// Starts a line holding the quoted program name.
    pub fn new(arg0: &str) -> (r: CommandLine)
        ensures
            r.well_formed(),
            r.spec_words() == seq![arg0@],
            r.spec_cwd() is None,
    {
        let line = quote_word(arg0);
        proof {
            assert(seq![arg0@].drop_first() =~= Seq::<Seq<char>>::empty());
            assert(spec_render(seq![arg0@]) =~= spec_quote(arg0@));
        }
        let ghost w: Seq<Seq<char>> = seq![arg0@];
        CommandLine { line, cwd: None, words: Ghost(w) }
    }

    /// Appends one argument, quoted, after a separating space.
    pub fn arg(&mut self, arg: &str)
        requires
            old(self).well_formed(),
        ensures
            final(self).well_formed(),
            final(self).spec_words() == old(self).spec_words().push(arg@),
            final(self).spec_cwd() == old(self).spec_cwd(),
    {
        let quoted = quote_word(arg);
        self.line.append(" ");
        self.line.append(quoted.as_str());
        proof {
            self.words@ = self.words@.push(arg@);
            lemma_render_push(old(self).words@, arg@);
            reveal_strlit(" ");
            assert(" "@ =~= seq![' ']);
            assert(self.line@ =~= spec_render(self.words@));
        }
    }

    /// Records the working directory the command will run in.
    pub fn current_dir(&mut self, dir: &str)
        requires
            old(self).well_formed(),
        ensures
            final(self).well_formed(),
            final(self).spec_words() == old(self).spec_words(),
            final(self).spec_cwd() == Some(dir@),
    {
        self.cwd = Some(dir.to_owned());
    }

    /// The directory suffix appended to a displayed line.
    pub open spec fn spec_cwd_suffix(cwd: Option<Seq<char>>) -> Seq<char> {
        match cwd {
            None => Seq::<char>::empty(),
            Some(d) => " [cwd="@ + d + "]"@,
        }
    }

    /// What the plain rendering shows: the line, then the directory suffix.
    pub open spec fn spec_display(&self) -> Seq<char> {
        self.line@ + Self::spec_cwd_suffix(self.spec_cwd())
    }

    /// What the marked rendering shows: the line wrapped in backticks for
    /// embedding in prose, then the directory suffix.
    pub open spec fn spec_display_marked(&self) -> Seq<char> {
        "`"@ + self.line@ + "`"@ + Self::spec_cwd_suffix(self.spec_cwd())
    }

    /// Renders the line for a log prefix or plain message.
    pub fn display(&self) -> (r: String)
        ensures
            r@ == self.spec_display(),
    {
        let mut out = String::new();
        out.append(self.line.as_str());
        match &self.cwd {
            Some(d) => {
                out.append(" [cwd=");
                out.append(d.as_str());
                out.append("]");
            },
            None => {},
        }
        proof {
            assert(out@ =~= self.spec_display());
        }
        out
    }

    /// Renders the line for embedding in an error message.
    pub fn display_marked(&self) -> (r: String)
        ensures
            r@ == self.spec_display_marked(),
    {
        let mut out = String::new();
        out.append("`");
        out.append(self.line.as_str());
        out.append("`");
        match &self.cwd {
            Some(d) => {
                out.append(" [cwd=");
                out.append(d.as_str());
                out.append("]");
            },
            None => {},
        }
        proof {
            assert(out@ =~= self.spec_display_marked());
        }
        out
    }
}

} // verus!
