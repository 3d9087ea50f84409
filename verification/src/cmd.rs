//! Commands and the launch policy.
//!
//! A `CommandPlus` collects a program, its arguments, a working directory
//! and a kind tag, keeping the rendered `CommandLine` in step.  The kind,
//! together with the process-wide verbosity, decides how the command's
//! streams are routed; the `finish_*` methods classify what came back from
//! the launch, which itself happens outside the library.

use vstd::prelude::*;

use crate::cmdline::CommandLine;
use crate::outcome::classify_outcome;
use crate::outcome::spec_capture_decodable;
use crate::outcome::spec_decoded_capture;
use crate::outcome::CapturedOutput;
use crate::outcome::CommandError;
use crate::outcome::RawCapture;
use crate::outcome::RawExit;
use crate::outcome::RawOutcome;
use crate::verbosity::is_active;
use crate::verbosity::spec_is_active;
use crate::verbosity::Verbosity;
use vstd::utf8::decode_utf8;

use crate::mux::merged_bytes;

verus! {

/// A command's role, driving the echo and output policy.
#[derive(Clone, Copy, Debug, Eq, PartialEq, Structural)]
pub enum CommandKind {
    /// The user-facing "run this command" action: echoed normally, but
    /// output is captured and shown only on failure unless the operator
    /// raises verbosity.
    Run,
    /// An ordinary operational command: echoed normally, output live unless
    /// the operator asked for quiet.
    Operational,
    /// A noisy bookkeeping query used to build other decisions: echoed only
    /// at verbose, output never shown live.
    Filter,
}

impl CommandKind {
    /// The level at which this kind's command line is echoed.
    pub open spec fn spec_cmdline_verbosity(self) -> Verbosity {
        match self {
            CommandKind::Run => Verbosity::Normal,
            CommandKind::Operational => Verbosity::Normal,
            CommandKind::Filter => Verbosity::Verbose,
        }
    }

    /// The level at which this kind's output streams go live to the
    /// operator instead of being captured.
    pub open spec fn spec_output_verbosity(self) -> Verbosity {
        match self {
            CommandKind::Run => Verbosity::Verbose,
            CommandKind::Operational => Verbosity::Normal,
            CommandKind::Filter => Verbosity::Off,
        }
    }

    pub fn cmdline_verbosity(&self) -> (r: Verbosity)
        ensures
            r == self.spec_cmdline_verbosity(),
    {
        match self {
            CommandKind::Run => Verbosity::Normal,
            CommandKind::Operational => Verbosity::Normal,
            CommandKind::Filter => Verbosity::Verbose,
        }
    }

    pub fn output_verbosity(&self) -> (r: Verbosity)
        ensures
            r == self.spec_output_verbosity(),
    {
        match self {
            CommandKind::Run => Verbosity::Verbose,
            CommandKind::Operational => Verbosity::Normal,
            CommandKind::Filter => Verbosity::Off,
        }
    }
}

impl Default for CommandKind {
    fn default() -> (r: CommandKind)
        ensures
            r == CommandKind::Operational,
    {
        CommandKind::Operational
    }
}

/// How a launch routes the child's standard streams.
#[derive(Clone, Copy, Debug, Eq, PartialEq, Structural)]
pub enum ExecMode {
    /// The child's streams go straight to the operator's.
    Inherit,
    /// Both streams are piped and returned as two independent buffers.
    CaptureSeparate,
    /// Both streams are piped, drained concurrently, and merged into one
    /// ordered transcript.
    CaptureCombined,
}

/// The stream routing a run uses: live when the kind's output level is
/// active, otherwise one merged transcript to show on failure.
pub open spec fn spec_run_mode(kind: CommandKind, current: Verbosity) -> ExecMode {
    if spec_is_active(kind.spec_output_verbosity(), current) {
        ExecMode::Inherit
    } else {
        ExecMode::CaptureCombined
    }
}

/// A program invocation under construction: the program, its arguments, the
/// directory it will run in, its kind, and the rendered command line, kept
/// in step with all of them.
pub struct CommandPlus {
    pub program: String,
    pub args: Vec<String>,
    pub cwd: Option<String>,
    pub kind: CommandKind,
    pub cmdline: CommandLine,
}

impl CommandPlus {
    /// The words the command will be spawned with: the program, then the
    /// arguments in order.
    pub open spec fn spec_words(&self) -> Seq<Seq<char>> {
        seq![self.program@] + self.args@.map_values(|a: String| a@)
    }

    pub open spec fn spec_cwd(&self) -> Option<Seq<char>> {
        match self.cwd {
            Some(ref d) => Some(d@),
            None => None,
        }
    }

    /// The rendered line always reflects exactly the words and directory
    /// the command holds.
    pub open spec fn well_formed(&self) -> bool {
        &&& self.cmdline.well_formed()
        &&& self.cmdline.spec_words() == self.spec_words()
        &&& self.cmdline.spec_cwd() == self.spec_cwd()
    }

    /// Starts a command for the given program, of the default kind, with no
    /// arguments and no working directory.
    pub fn new(arg0: &str) -> (r: CommandPlus)
        ensures
            r.well_formed(),
            r.program@ == arg0@,
            r.args@.len() == 0,
            r.cwd is None,
            r.kind == CommandKind::Operational,
    {
        let r = CommandPlus {
            program: arg0.to_owned(),
            args: Vec::new(),
            cwd: None,
            kind: CommandKind::Operational,
            cmdline: CommandLine::new(arg0),
        };
        proof {
            assert(r.spec_words() =~= seq![arg0@]);
        }
        r
    }

    /// Appends one argument.
    pub fn arg(&mut self, arg: &str)
        requires
            old(self).well_formed(),
        ensures
            final(self).well_formed(),
            final(self).args@.map_values(|a: String| a@) == old(self).args@.map_values(
                |a: String| a@,
            ).push(arg@),
            final(self).program == old(self).program,
            final(self).cwd == old(self).cwd,
            final(self).kind == old(self).kind,
    {
        self.cmdline.arg(arg);
        self.args.push(arg.to_owned());
        proof {
            assert(self.args@.map_values(|a: String| a@) =~= old(self).args@.map_values(
                |a: String| a@,
            ).push(arg@));
            assert(self.spec_words() =~= old(self).spec_words().push(arg@));
        }
    }

    /// Appends each of the given arguments, in order.
    pub fn args(&mut self, args: &Vec<String>)
        requires
            old(self).well_formed(),
        ensures
            final(self).well_formed(),
            final(self).args@.map_values(|a: String| a@) == old(self).args@.map_values(
                |a: String| a@,
            ) + args@.map_values(|a: String| a@),
            final(self).program == old(self).program,
            final(self).cwd == old(self).cwd,
            final(self).kind == old(self).kind,
    {
        let mut i: usize = 0;
        while i < args.len()
            invariant
                i <= args@.len(),
                self.well_formed(),
                self.args@.map_values(|a: String| a@) == old(self).args@.map_values(
                    |a: String| a@,
                ) + args@.map_values(|a: String| a@).take(i as int),
                self.program == old(self).program,
                self.cwd == old(self).cwd,
                self.kind == old(self).kind,
            decreases args@.len() - i,
        {
            self.arg(args[i].as_str());
            i += 1;
            proof {
                assert(self.args@.map_values(|a: String| a@) =~= old(self).args@.map_values(
                    |a: String| a@,
                ) + args@.map_values(|a: String| a@).take(i as int));
            }
        }
        proof {
            assert(args@.map_values(|a: String| a@).take(args@.len() as int) =~= args@.map_values(
                |a: String| a@,
            ));
        }
    }

    /// Sets the directory the command will run in.
    pub fn current_dir(&mut self, dir: &str)
        requires
            old(self).well_formed(),
        ensures
            final(self).well_formed(),
            final(self).spec_cwd() == Some(dir@),
            final(self).args == old(self).args,
            final(self).program == old(self).program,
            final(self).kind == old(self).kind,
    {
        self.cmdline.current_dir(dir);
        self.cwd = Some(dir.to_owned());
    }

    /// Sets the command's kind.
    pub fn kind(&mut self, k: CommandKind)
        requires
            old(self).well_formed(),
        ensures
            final(self).well_formed(),
            final(self).kind == k,
            final(self).args == old(self).args,
            final(self).program == old(self).program,
            final(self).cwd == old(self).cwd,
            final(self).cmdline == old(self).cmdline,
    {
        self.kind = k;
    }

    /// The rendered command line.
    pub fn cmdline(&self) -> (r: &CommandLine)
        ensures
            r == self.cmdline,
    {
        &self.cmdline
    }

    /// Whether this command's line is echoed at the configured verbosity.
    pub fn should_echo(&self, current: Verbosity) -> (r: bool)
        ensures
            r == spec_is_active(self.kind.spec_cmdline_verbosity(), current),
    {
        is_active(self.kind.cmdline_verbosity(), current)
    }

    /// The stream routing a `run` uses at the configured verbosity.
    pub fn run_mode(&self, current: Verbosity) -> (r: ExecMode)
        ensures
            r == spec_run_mode(self.kind, current),
    {
        if is_active(self.kind.output_verbosity(), current) {
            ExecMode::Inherit
        } else {
            ExecMode::CaptureCombined
        }
    }

    /// Classifies what a `run` launch reported: success exactly when the
    /// child was spawned, drained and waited for without fault, its captured
    /// bytes (if any) were text, and it exited successfully.
    pub fn finish_run(&self, raw: RawOutcome) -> (r: Result<(), CommandError>)
        ensures
            (r is Ok <==> (raw matches RawOutcome::Exited { exit, capture } && exit.success
                && spec_capture_decodable(&capture))),
            raw matches RawOutcome::SpawnFailed(src) ==> (r matches Err(
                CommandError::Startup { cmdline: c, source },
            ) && c == self.cmdline && source == src),
            raw matches RawOutcome::WaitFailed(src) ==> (r matches Err(
                CommandError::Wait { cmdline: c, source },
            ) && c == self.cmdline && source == src),
            raw matches RawOutcome::DrainFailed(src) ==> (r matches Err(
                CommandError::Drain { cmdline: c, source },
            ) && c == self.cmdline && source == src),
            raw matches RawOutcome::Exited { exit, capture } ==> {
                &&& !spec_capture_decodable(&capture) ==> (r matches Err(
                    CommandError::Decode { cmdline: c },
                ) && c == self.cmdline)
                &&& !exit.success && spec_capture_decodable(&capture) ==> (r matches Err(
                    CommandError::Exit { cmdline: c, rc, output },
                ) && c == self.cmdline && rc == exit && spec_decoded_capture(&capture, &output))
            },
    {
        match classify_outcome(&self.cmdline, raw) {
            Ok(_) => Ok(()),
            Err(e) => Err(e),
        }
    }

    /// Classifies what a `status` launch (streams discarded) reported: the
    /// exit facts themselves, whatever the code, or the launch failure.
    pub fn finish_status(&self, raw: RawOutcome) -> (r: Result<RawExit, CommandError>)
        ensures
            raw matches RawOutcome::Exited { exit, capture } ==> r == Ok::<
                RawExit,
                CommandError,
            >(exit),
            raw matches RawOutcome::SpawnFailed(src) ==> (r matches Err(
                CommandError::Startup { cmdline: c, source },
            ) && c == self.cmdline && source == src),
            raw matches RawOutcome::WaitFailed(src) ==> (r matches Err(
                CommandError::Wait { cmdline: c, source },
            ) && c == self.cmdline && source == src),
            raw matches RawOutcome::DrainFailed(src) ==> (r matches Err(
                CommandError::Drain { cmdline: c, source },
            ) && c == self.cmdline && source == src),
    {
        match raw {
            RawOutcome::Exited { exit, .. } => Ok(exit),
            RawOutcome::SpawnFailed(source) => Err(
                CommandError::Startup { cmdline: self.cmdline.clone(), source },
            ),
            RawOutcome::WaitFailed(source) => Err(
                CommandError::Wait { cmdline: self.cmdline.clone(), source },
            ),
            RawOutcome::DrainFailed(source) => Err(
                CommandError::Drain { cmdline: self.cmdline.clone(), source },
            ),
        }
    }

    /// Classifies what a separate-capture launch reported and hands back the
    /// decoded standard output on success.
    pub fn finish_check_output(&self, raw: RawOutcome) -> (r: Result<String, CommandError>)
        ensures
            (r is Ok <==> (raw matches RawOutcome::Exited { exit, capture } && exit.success
                && spec_capture_decodable(&capture))),

            raw matches RawOutcome::SpawnFailed(src) ==> (r matches Err(
                CommandError::Startup { cmdline: c, source },
            ) && c == self.cmdline && source == src),
            raw matches RawOutcome::WaitFailed(src) ==> (r matches Err(
                CommandError::Wait { cmdline: c, source },
            ) && c == self.cmdline && source == src),
            raw matches RawOutcome::DrainFailed(src) ==> (r matches Err(
                CommandError::Drain { cmdline: c, source },
            ) && c == self.cmdline && source == src),
            raw matches RawOutcome::Exited { exit, capture } ==> {
                &&& exit.success && spec_capture_decodable(&capture) ==> (r matches Ok(s) && s@
                    == spec_stdout_of(&capture))
                &&& !spec_capture_decodable(&capture) ==> (r matches Err(
                    CommandError::Decode { cmdline: c },
                ) && c == self.cmdline)
                &&& !exit.success && spec_capture_decodable(&capture) ==> (r matches Err(
                    CommandError::Exit { cmdline: c, rc, output },
                ) && c == self.cmdline && rc == exit && spec_decoded_capture(&capture, &output))
            },
    {
        match classify_outcome(&self.cmdline, raw) {
            Ok(outcome) => {
                match outcome.output {
                    CapturedOutput::NoneCaptured => Ok(String::new()),
                    CapturedOutput::Combined(t) => Ok(t),
                    CapturedOutput::Separate { stdout, .. } => Ok(stdout),
                }
            },
            Err(e) => Err(e),
        }
    }
}

/// The decoded standard-output text of a capture: the separate stdout
/// buffer, the merged transcript, or nothing.
pub open spec fn spec_stdout_of(capture: &RawCapture) -> Seq<char> {
    match capture {
        RawCapture::NoCapture => Seq::<char>::empty(),
        RawCapture::Combined(events) => decode_utf8(merged_bytes(events@)),
        RawCapture::Separate { stdout, .. } => decode_utf8(stdout@),
    }
}

/// Quiet-success policy: under the user-facing kind at the default
/// verbosity, a run captures one merged transcript; a successful command's
/// captured output is carried by no value at all (the result is the empty
/// success), so it is never printed, while a failing command's transcript
/// rides on the exit error exactly once.
pub proof fn lemma_quiet_success_policy(kind: CommandKind, current: Verbosity)
    requires
        kind == CommandKind::Run,
        current == Verbosity::Normal,
    ensures
        spec_run_mode(kind, current) == ExecMode::CaptureCombined,
        spec_is_active(kind.spec_cmdline_verbosity(), current),
{
}

} // verus!
