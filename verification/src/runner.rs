//! Building the per-project command from the operator's request: a literal
//! program with arguments, a shell command line, or a script file resolved
//! through its executable bit or its shebang line.
//!
//! Looking at the file system — the executable bit, the canonical path, the
//! first line of the script — happens outside the library and is handed in
//! as a `ScriptResolution`.

use vstd::prelude::*;

use crate::cmd::CommandKind;
use crate::cmd::CommandPlus;
use crate::outcome::IoErrorInfo;
use crate::project::Project;
use crate::strutil::spec_starts_with;
use crate::strutil::spec_ws_tokens;
use crate::strutil::split_ws_tokens;
use crate::strutil::starts_with_str;
use crate::strutil::str_chars;

verus! {

/// The operator's request: run the words as a shell command, as a script
/// file, or as a literal program with arguments.
pub struct RunOpts {
    pub script: bool,
    pub shell: bool,
    pub command: Vec<String>,
}

impl RunOpts {
    /// The argument parser guarantees a non-empty command and refuses the
    /// two modes together.
    pub open spec fn well_formed(&self) -> bool {
        &&& self.command@.len() > 0
        &&& !(self.script && self.shell)
    }
}

/// The resolved command: the program and the arguments run in each project.
#[derive(Debug)]
pub struct Runner {
    pub command: String,
    pub args: Vec<String>,
}

impl Runner {
    /// The command run in one project: this runner's program and arguments,
    /// in the project's directory, under the user-facing kind.
    pub fn command_for(&self, p: &Project) -> (r: CommandPlus)
        ensures
            r.well_formed(),
            r.program@ == self.command@,
            r.args@.map_values(|a: String| a@) == self.args@.map_values(|a: String| a@),
            r.spec_cwd() == Some(p.dirpath@),
            r.kind == CommandKind::Run,
    {
        let mut c = p.runcmd(self.command.as_str());
        c.args(&self.args);
        c.kind(CommandKind::Run);
        proof {
            assert(c.args@.map_values(|a: String| a@) =~= self.args@.map_values(|a: String| a@));
        }
        c
    }
}

/// Why the request could not be turned into a runnable command.
#[derive(Debug)]
pub enum RunOptsError {
    /// The script's metadata could not be read.
    Metadata(IoErrorInfo),
    /// The script could not be opened.
    Open(IoErrorInfo),
    /// The script's first line could not be read.
    Read(IoErrorInfo),
    /// The script starts with no shebang line.
    NoShebang,
    /// The script's path could not be canonicalized.
    Canonicalize(IoErrorInfo),
}

impl RunOptsError {
    /// One line naming what failed.
    pub fn describe(&self) -> (r: &'static str)
        ensures
            self is Metadata ==> r@ == "failed to get filesystem metadata for script"@,
            self is Open ==> r@ == "failed to open script for reading"@,
            self is Read ==> r@ == "failed to read shebang line from script"@,
            self is NoShebang ==> r@ == "script does not start with shebang"@,
            self is Canonicalize ==> r@ == "failed to canonicalize script path"@,
    {
        match self {
            RunOptsError::Metadata(_) => "failed to get filesystem metadata for script",
            RunOptsError::Open(_) => "failed to open script for reading",
            RunOptsError::Read(_) => "failed to read shebang line from script",
            RunOptsError::NoShebang => "script does not start with shebang",
            RunOptsError::Canonicalize(_) => "failed to canonicalize script path",
        }
    }
}

/// How the file system resolved a script path.
pub enum ScriptResolution {
    /// The file is executable; it is run by its canonical path.
    Executable { canonical: String },
    /// The file is not executable; its first line and canonical path were
    /// read, the interpreter to be taken from the shebang.
    Shebang { first_line: String, canonical: String },
}

/// The configured shell, or the conventional fallback when the environment
/// names none.
pub fn shell_or_default(var: Option<String>) -> (r: String)
    ensures
        match var {
            Some(v) => r == v,
            None => r@ == "sh"@,
        },
{
    match var {
        Some(v) => v,
        None => "sh".to_owned(),
    }
}

/// Whether a file mode has any execute bit set.
pub fn is_executable(mode: u32) -> (r: bool)
    ensures
        r == (mode & 0o111 != 0),
{
    mode & 0o111 != 0
}

/// The interpreter and its arguments named by a shebang line, when the line
/// is one: the text after `#!`, split at whitespace, the first token being
/// the interpreter.
pub fn parse_shebang(line: &str) -> (r: Option<(String, Vec<String>)>)
    ensures
        ({
            let tokens = spec_ws_tokens(line@.skip(2));
            if spec_starts_with(line@, "#!"@) && tokens.len() > 0 {
                r matches Some((interp, args)) && interp@ == tokens[0]
                    && args@.map_values(|a: String| a@) == tokens.drop_first()
            } else {
                r is None
            }
        }),
{
    proof {
        reveal_strlit("#!");
    }
    if !starts_with_str(line, "#!") {
        return None;
    }
    let chars = str_chars(line);
    let mut rest_chars: Vec<char> = Vec::new();
    let mut i: usize = 2;
    proof {
        assert(line@.len() >= 2);
        assert(rest_chars@ =~= line@.subrange(2, 2));
    }
    while i < chars.len()
        invariant
            chars@ == line@,
            line@.len() >= 2,
            2 <= i <= chars@.len(),
            rest_chars@ == line@.subrange(2, i as int),
        decreases chars@.len() - i,
    {
        rest_chars.push(chars[i]);
        i += 1;
        proof {
            assert(rest_chars@ =~= line@.subrange(2, i as int));
        }
    }
    proof {
        assert(rest_chars@ =~= line@.skip(2));
    }
    let rest = crate::strutil::chars_to_string(&rest_chars);
    let tokens = split_ws_tokens(rest.as_str());
    if tokens.len() == 0 {
        return None;
    }
    let ghost toks = spec_ws_tokens(line@.skip(2));
    let mut iter: usize = 1;
    let interp = tokens[0].clone();
    let mut args: Vec<String> = Vec::new();
    while iter < tokens.len()
        invariant
            1 <= iter <= tokens@.len(),
            tokens@.map_values(|x: String| x@) == toks,
            toks.len() == tokens@.len(),
            interp@ == toks[0],
            args@.map_values(|x: String| x@) == toks.subrange(1, iter as int),
        decreases tokens@.len() - iter,
    {
        proof {
            assert(tokens@.map_values(|x: String| x@)[iter as int] == tokens@[iter as int]@);
        }
        let ghost pre = args@;
        args.push(tokens[iter].clone());
        iter += 1;
        proof {
            pre.lemma_push_map_commute(|x: String| x@, args@[args@.len() - 1]);
            assert(args@.map_values(|x: String| x@) =~= toks.subrange(1, iter as int));
        }
    }
    proof {
        assert(toks.subrange(1, toks.len() as int) =~= toks.drop_first());
    }
    Some((interp, args))
}

/// Builds the runnable command from the request.
///
/// In shell mode the configured shell runs the words through its own
/// command-string switch.  In script mode the resolution decides: an
/// executable script runs by its canonical path, any other through the
/// interpreter its shebang names, the canonical path appended; a script with
/// no shebang is rejected.  Otherwise the first word is the program and the
/// rest its arguments.
pub fn assemble_runner(opts: RunOpts, shell: String, script: Option<ScriptResolution>) -> (r:
    Result<Runner, RunOptsError>)
    requires
        opts.well_formed(),
        opts.script ==> script is Some,
    ensures
        opts.shell ==> (r matches Ok(runner) && runner.command == shell
            && runner.args@.map_values(|a: String| a@) == seq!["-c"@] + opts.command@.map_values(
            |a: String| a@,
        )),
        opts.script && !opts.shell ==> match script {
            Some(ScriptResolution::Executable { canonical }) => r matches Ok(runner)
                && runner.command == canonical && runner.args@.map_values(|a: String| a@)
                == opts.command@.map_values(|a: String| a@).drop_first(),
            Some(ScriptResolution::Shebang { first_line, canonical }) => {
                let tokens = spec_ws_tokens(first_line@.skip(2));
                if spec_starts_with(first_line@, "#!"@) && tokens.len() > 0 {
                    r matches Ok(runner) && runner.command@ == tokens[0]
                        && runner.args@.map_values(|a: String| a@) == tokens.drop_first()
                        + seq![canonical@] + opts.command@.map_values(
                        |a: String| a@,
                    ).drop_first()
                } else {
                    r matches Err(e) && e is NoShebang
                }
            },
            None => true,
        },
        !opts.shell && !opts.script ==> (r matches Ok(runner) && runner.command@
            == opts.command@[0]@ && runner.args@.map_values(|a: String| a@)
            == opts.command@.map_values(|a: String| a@).drop_first()),
{
    let ghost cmdviews = opts.command@.map_values(|a: String| a@);
    if opts.shell {
        let mut args: Vec<String> = Vec::new();
        args.push("-c".to_owned());
        let mut k: usize = 0;
        let command = opts.command;
        while k < command.len()
            invariant
                k <= command@.len(),
                cmdviews == command@.map_values(|a: String| a@),
                args@.map_values(|a: String| a@) == seq!["-c"@] + cmdviews.take(k as int),
            decreases command@.len() - k,
        {
            proof {
                assert(command@.map_values(|a: String| a@)[k as int] == command@[k as int]@);
            }
            let ghost pre = args@;
            args.push(command[k].clone());
            k += 1;
            proof {
                pre.lemma_push_map_commute(|a: String| a@, args@[args@.len() - 1]);
                assert(args@.map_values(|a: String| a@) =~= seq!["-c"@] + cmdviews.take(
                    k as int,
                ));
            }
        }
        proof {
            assert(cmdviews.take(cmdviews.len() as int) =~= cmdviews);
        }
        return Ok(Runner { command: shell, args });
    }
    if opts.script {
        let command = opts.command;
        let trailing = tail_of(&command);
        match script {
            Some(ScriptResolution::Executable { canonical }) => {
                return Ok(Runner { command: canonical, args: trailing });
            },
            Some(ScriptResolution::Shebang { first_line, canonical }) => {
                match parse_shebang(first_line.as_str()) {
                    None => {
                        return Err(RunOptsError::NoShebang);
                    },
                    Some((interp, bangargs)) => {
                        let mut args = bangargs;
                        args.push(canonical);
                        let mut k: usize = 0;
                        let ghost base = args@.map_values(|a: String| a@);
                        while k < trailing.len()
                            invariant
                                k <= trailing@.len(),
                                args@.map_values(|a: String| a@) == base + trailing@.map_values(
                                    |a: String| a@,
                                ).take(k as int),
                            decreases trailing@.len() - k,
                        {
                            proof {
                                assert(trailing@.map_values(|a: String| a@)[k as int]
                                    == trailing@[k as int]@);
                            }
                            let ghost pre = args@;
                            args.push(trailing[k].clone());
                            k += 1;
                            proof {
                                pre.lemma_push_map_commute(
                                    |a: String| a@,
                                    args@[args@.len() - 1],
                                );
                                assert(args@.map_values(|a: String| a@) =~= base
                                    + trailing@.map_values(|a: String| a@).take(k as int));
                            }
                        }
                        proof {
                            let tv = trailing@.map_values(|a: String| a@);
                            assert(tv.take(tv.len() as int) =~= tv);
                            assert(base =~= spec_ws_tokens(first_line@.skip(2)).drop_first()
                                + seq![canonical@]);
                            assert(base + tv =~= spec_ws_tokens(
                                first_line@.skip(2),
                            ).drop_first() + seq![canonical@] + cmdviews.drop_first());
                        }
                        return Ok(Runner { command: interp, args });
                    },
                }
            },
            None => {
                // script mode always carries a resolution; this arm never runs
                return Err(RunOptsError::NoShebang);
            },
        }
    }
    let command = opts.command;
    let trailing = tail_of(&command);
    let first = command[0].clone();
    Ok(Runner { command: first, args: trailing })
}

/// All words after the first.
fn tail_of(command: &Vec<String>) -> (r: Vec<String>)
    requires
        command@.len() > 0,
    ensures
        r@.map_values(|a: String| a@) == command@.map_values(|a: String| a@).drop_first(),
{
    let mut out: Vec<String> = Vec::new();
    let mut k: usize = 1;
    let ghost views = command@.map_values(|a: String| a@);
    proof {
        assert(out@.map_values(|a: String| a@) =~= views.subrange(1, 1));
    }
    while k < command.len()
        invariant
            1 <= k <= command@.len(),
            views == command@.map_values(|a: String| a@),
            out@.map_values(|a: String| a@) == views.subrange(1, k as int),
        decreases command@.len() - k,
    {
        proof {
            assert(command@.map_values(|a: String| a@)[k as int] == command@[k as int]@);
        }
        let ghost pre = out@;
        out.push(command[k].clone());
        k += 1;
        proof {
            pre.lemma_push_map_commute(|a: String| a@, out@[out@.len() - 1]);
            assert(out@.map_values(|a: String| a@) =~= views.subrange(1, k as int));
        }
    }
    proof {
        assert(views.subrange(1, views.len() as int) =~= views.drop_first());
    }
    out
}

} // verus!
