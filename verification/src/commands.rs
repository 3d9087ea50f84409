//! The per-command decisions of the batch operations: what each command asks
//! of a project, and what it does with the answer.
//!
//! Running the tools, reading files and printing results happen outside the
//! library.

use vstd::prelude::*;

use crate::cmd::CommandKind;
use crate::cmd::CommandPlus;
use crate::outcome::CommandError;
use crate::project::Language;
use crate::project::Project;
use crate::strutil::parse_u64;
use crate::strutil::spec_decimal_value;

verus! {

/// The line counts reported for one language by the counting tool.
#[derive(Clone, Copy, Debug, Eq, PartialEq, Structural)]
pub struct Stats {
    pub code: usize,
}

impl Default for Stats {
    fn default() -> (r: Stats)
        ensures
            r.code == 0,
    {
        Stats { code: 0 }
    }
}

/// What the counting tool reported, one optional entry per language.
#[derive(Clone, Copy, Debug, Eq, PartialEq, Structural)]
pub struct ClocJson {
    pub python: Option<Stats>,
    pub rust: Option<Stats>,
}

impl ClocJson {
    /// The entry for one language, when the tool reported one.
    pub fn for_language(&self, language: Language) -> (r: Option<Stats>)
        ensures
            r == (match language {
                Language::Python => self.python,
                Language::Rust => self.rust,
            }),
    {
        match language {
            Language::Python => self.python,
            Language::Rust => self.rust,
        }
    }

    /// The code line count printed for a project: the entry's count, or zero
    /// when the tool reported none for the language.
    pub fn code_count(&self, language: Language) -> (r: usize)
        ensures
            r == (match (match language {
                Language::Python => self.python,
                Language::Rust => self.rust,
            }) {
                Some(st) => st.code,
                None => 0usize,
            }),
    {
        match self.for_language(language) {
            Some(st) => st.code,
            None => 0,
        }
    }
}

/// The line-counting command for one project: the counting tool, restricted
/// to the project's extension, in JSON, over the project's source paths,
/// under the noisy-query kind so it is not echoed at normal verbosity.
pub fn cloc_command(p: &Project, srcs: &Vec<String>) -> (r: CommandPlus)
    ensures
        r.well_formed(),
        r.spec_words() == seq!["cloc"@, "--include-ext="@ + p.language.spec_ext(), "--json"@]
            + srcs@.map_values(|s: String| s@),
        r.spec_cwd() == Some(p.dirpath@),
        r.kind == CommandKind::Filter,
{
    let mut c = p.runcmd("cloc");
    let mut extarg = String::new();
    extarg.append("--include-ext=");
    extarg.append(p.language().ext());
    c.arg(extarg.as_str());
    c.arg("--json");
    c.args(srcs);
    c.kind(CommandKind::Filter);
    proof {
        assert(c.spec_words() =~= seq![
            "cloc"@,
            "--include-ext="@ + p.language.spec_ext(),
            "--json"@,
        ] + srcs@.map_values(|s: String| s@));
    }
    c
}

/// Whether the cleaning pass has anything to do: the dry run named at least
/// one removable file.
pub fn clean_needed(dry_run_output: &str) -> (r: bool)
    ensures
        r == (dry_run_output@.len() > 0),
{
    dry_run_output.unicode_len() > 0
}

/// Whether the push command pushes: the commit-count query printed a
/// positive number.  A line that is not a plain number in range counts as
/// zero commits ahead.
pub fn push_needed(ahead: &str) -> (r: bool)
    ensures
        r == (spec_decimal_value(ahead@) matches Some(v) && 0 < v <= u64::MAX),
{
    match parse_u64(ahead) {
        Some(v) => v > 0,
        None => false,
    }
}

/// Whether the Rust-cleaning pass considers a project at all: it is a Rust
/// project with a build directory.
pub fn rsclean_wanted(language: Language, has_target_dir: bool) -> (r: bool)
    ensures
        r == (language == Language::Rust && has_target_dir),
{
    let is_rust = match language {
        Language::Rust => true,
        Language::Python => false,
    };
    is_rust && has_target_dir
}

/// Absorbs a reported nonzero exit and nothing else: the hook runner is
/// expected to fail when it rewrites files, and only a real launch fault
/// aborts.
pub fn absorb_exit(r: Result<(), CommandError>) -> (out: Result<(), CommandError>)
    ensures
        r is Ok ==> out is Ok,
        r matches Err(e) ==> {
            if e is Exit {
                out is Ok
            } else {
                out == Err::<(), CommandError>(e)
            }
        },
{
    match r {
        Ok(()) => Ok(()),
        Err(e) => if e.is_exit() {
            Ok(())
        } else {
            Err(e)
        },
    }
}

/// Reads the quiet cached diff that asks whether an update changed anything:
/// success means nothing to commit, a reported nonzero exit means changes to
/// commit, anything else is a real failure.
pub fn commit_needed_from(r: Result<(), CommandError>) -> (out: Result<bool, CommandError>)
    ensures
        r is Ok ==> out == Ok::<bool, CommandError>(false),
        r matches Err(e) ==> {
            if e is Exit {
                out == Ok::<bool, CommandError>(true)
            } else {
                out == Err::<bool, CommandError>(e)
            }
        },
{
    match r {
        Ok(()) => Ok(false),
        Err(e) => if e.is_exit() {
            Ok(true)
        } else {
            Err(e)
        },
    }
}

} // verus!
