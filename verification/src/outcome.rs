//! The execution-outcome model and the outcome classifier.
//!
//! A completed child process is handed to the library as plain values: the
//! exit facts, and the captured bytes as the launch mode collected them.
//! The classifier turns those into success or one of five error kinds, which
//! callers must handle case by case.

use vstd::prelude::*;
use vstd::utf8::decode_utf8;
use vstd::utf8::valid_utf8;

use crate::cmdline::CommandLine;
use crate::mux::merge_events;
use crate::mux::merged_bytes;
use crate::mux::RawEvent;

verus! {

/// A plain-value model of an operating-system error: its message text and
/// the raw error number when one exists.
#[derive(Debug)]
pub struct IoErrorInfo {
    pub message: String,
    pub os_code: Option<i32>,
}

/// Exit facts of a terminated process.  `code` is absent on abnormal
/// termination; `success` holds exactly for a reported exit code of zero.
#[derive(Clone, Copy, Debug, Eq, PartialEq, Structural)]
pub struct RawExit {
    pub success: bool,
    pub code: Option<i32>,
}

impl RawExit {
    /// Success means a reported exit code of zero.
    pub open spec fn well_formed(&self) -> bool {
        self.success <==> self.code == Some(0i32)
    }

    /// Builds the exit facts from the reported code (absent when the process
    /// was terminated abnormally).
    pub fn from_code(code: Option<i32>) -> (r: RawExit)
        ensures
            r.well_formed(),
            r.code == code,
    {
        let success = match code {
            Some(c) => c == 0,
            None => false,
        };
        RawExit { success, code }
    }
}

/// What was captured from the child, as the launch mode collected it.
pub enum RawCapture {
    /// Inherit mode: the streams went to the operator, nothing captured.
    NoCapture,
    /// Combined mode: the line events both reader tasks forwarded, in
    /// arrival order.
    Combined(Vec<RawEvent>),
    /// Separate mode: each stream drained whole, independently.
    Separate { stdout: Vec<u8>, stderr: Vec<u8> },
}

/// What a finished launch reported, before classification.
pub enum RawOutcome {
    /// The process could not be spawned.
    SpawnFailed(IoErrorInfo),
    /// Waiting on the child failed.
    WaitFailed(IoErrorInfo),
    /// Reading from one of the child's pipes failed.
    DrainFailed(IoErrorInfo),
    /// The child ran to completion.
    Exited { exit: RawExit, capture: RawCapture },
}

/// The captured text of a completed execution, decoded.
pub enum CapturedOutput {
    /// Nothing was captured (inherit mode).
    NoneCaptured,
    /// One merged transcript (combined mode).
    Combined(String),
    /// The two streams, separately (capture-separate mode).
    Separate { stdout: String, stderr: String },
}

impl CapturedOutput {
    /// The text a caller reading standard output gets: the separate stdout
    /// buffer, the merged transcript, or nothing.
    pub open spec fn spec_stdout_text(&self) -> Seq<char> {
        match self {
            CapturedOutput::NoneCaptured => Seq::<char>::empty(),
            CapturedOutput::Combined(t) => t@,
            CapturedOutput::Separate { stdout, .. } => stdout@,
        }
    }
}

/// The result of one completed execution: the exit facts and whatever text
/// the mode captured.
pub struct ExecutionOutcome {
    pub exit: RawExit,
    pub output: CapturedOutput,
}

/// Why a command failed.  Every variant carries the rendered command line
/// for diagnostics.
pub enum CommandError {
    /// The process could not be spawned: an environment problem, always
    /// fatal.
    Startup { cmdline: CommandLine, source: IoErrorInfo },
    /// The program ran and reported failure, with whatever text was
    /// captured; the one error a batch may absorb under keep-going.
    Exit { cmdline: CommandLine, rc: RawExit, output: CapturedOutput },
    /// Captured bytes were not valid text; always fatal.
    Decode { cmdline: CommandLine },
    /// Reading from a live child's pipe failed; always fatal.
    Drain { cmdline: CommandLine, source: IoErrorInfo },
    /// Waiting on the child failed; always fatal.
    Wait { cmdline: CommandLine, source: IoErrorInfo },
}

impl CommandError {
    /// The one kind a keep-going batch records instead of aborting on.
    pub open spec fn spec_is_exit(&self) -> bool {
        self is Exit
    }

    /// Every kind but a reported nonzero exit aborts the run even under
    /// keep-going: it signals an execution-environment problem, not a
    /// normal command failure.
    pub open spec fn spec_is_fatal(&self) -> bool {
        !self.spec_is_exit()
    }

    pub fn is_exit(&self) -> (r: bool)
        ensures
            r == self.spec_is_exit(),
    {
        match self {
            CommandError::Exit { .. } => true,
            _ => false,
        }
    }

    /// The command line the failing command rendered.
    pub fn cmdline(&self) -> (r: &CommandLine)
        ensures
            r == self.spec_cmdline(),
    {
        match self {
            CommandError::Startup { cmdline, .. } => cmdline,
            CommandError::Exit { cmdline, .. } => cmdline,
            CommandError::Decode { cmdline } => cmdline,
            CommandError::Drain { cmdline, .. } => cmdline,
            CommandError::Wait { cmdline, .. } => cmdline,
        }
    }

    pub open spec fn spec_cmdline(&self) -> &CommandLine {
        match self {
            CommandError::Startup { cmdline, .. } => cmdline,
            CommandError::Exit { cmdline, .. } => cmdline,
            CommandError::Decode { cmdline } => cmdline,
            CommandError::Drain { cmdline, .. } => cmdline,
            CommandError::Wait { cmdline, .. } => cmdline,
        }
    }

    /// The captured standard-output text, present only on a separate-capture
    /// exit failure.
    pub open spec fn spec_stdout(&self) -> Option<Seq<char>> {
        match self {
            CommandError::Exit { output: CapturedOutput::Separate { stdout, .. }, .. } => Some(
                stdout@,
            ),
            _ => None,
        }
    }

    /// The captured standard-error text, present only on a separate-capture
    /// exit failure.
    pub open spec fn spec_stderr(&self) -> Option<Seq<char>> {
        match self {
            CommandError::Exit { output: CapturedOutput::Separate { stderr, .. }, .. } => Some(
                stderr@,
            ),
            _ => None,
        }
    }

    /// The merged transcript, present only on a combined-capture exit
    /// failure.
    pub open spec fn spec_transcript(&self) -> Option<Seq<char>> {
        match self {
            CommandError::Exit { output: CapturedOutput::Combined(t), .. } => Some(t@),
            _ => None,
        }
    }

    pub fn stdout(&self) -> (r: Option<&str>)
        ensures
            match r {
                Some(s) => self.spec_stdout() == Some(s@),
                None => self.spec_stdout() is None,
            },
    {
        match self {
            CommandError::Exit { output: CapturedOutput::Separate { stdout, .. }, .. } => Some(
                stdout.as_str(),
            ),
            _ => None,
        }
    }

    pub fn stderr(&self) -> (r: Option<&str>)
        ensures
            match r {
                Some(s) => self.spec_stderr() == Some(s@),
                None => self.spec_stderr() is None,
            },
    {
        match self {
            CommandError::Exit { output: CapturedOutput::Separate { stderr, .. }, .. } => Some(
                stderr.as_str(),
            ),
            _ => None,
        }
    }

    pub fn transcript(&self) -> (r: Option<&str>)
        ensures
            match r {
                Some(s) => self.spec_transcript() == Some(s@),
                None => self.spec_transcript() is None,
            },
    {
        match self {
            CommandError::Exit { output: CapturedOutput::Combined(t), .. } => Some(t.as_str()),
            _ => None,
        }
    }
}

/// Relies on `String::from_utf8`: the bytes decode to exactly the UTF-8
/// character sequence vstd specifies, and decoding fails exactly on invalid
/// UTF-8.
#[verifier::external_body]
pub fn utf8_to_string(b: Vec<u8>) -> (r: Option<String>)
    ensures
        r is Some <==> valid_utf8(b@),
        r matches Some(s) ==> s@ == decode_utf8(b@),
{
    String::from_utf8(b).ok()
}

/// What decoding a raw capture must yield: the mode's shape, with every
/// buffer decoded.
pub open spec fn spec_decoded_capture(capture: &RawCapture, output: &CapturedOutput) -> bool {
    match capture {
        RawCapture::NoCapture => output is NoneCaptured,
        RawCapture::Combined(events) => match output {
            CapturedOutput::Combined(t) => t@ == decode_utf8(merged_bytes(events@)),
            _ => false,
        },
        RawCapture::Separate { stdout, stderr } => match output {
            CapturedOutput::Separate { stdout: o, stderr: e } => o@ == decode_utf8(stdout@)
                && e@ == decode_utf8(stderr@),
            _ => false,
        },
    }
}

/// Every captured buffer of the mode is valid text.
pub open spec fn spec_capture_decodable(capture: &RawCapture) -> bool {
    match capture {
        RawCapture::NoCapture => true,
        RawCapture::Combined(events) => valid_utf8(merged_bytes(events@)),
        RawCapture::Separate { stdout, stderr } => valid_utf8(stdout@) && valid_utf8(stderr@),
    }
}

/// Decodes the captured bytes of a completed execution.  Fails with the
/// decode error exactly when some captured buffer is not valid text — never
/// with a generic failure, so callers can tell a text mismatch from an
/// execution problem.
pub fn decode_capture(cmdline: &CommandLine, capture: RawCapture) -> (r: Result<
    CapturedOutput,
    CommandError,
>)
    ensures
        r is Ok <==> spec_capture_decodable(&capture),
        r matches Ok(output) ==> spec_decoded_capture(&capture, &output),
        r matches Err(e) ==> e matches CommandError::Decode { cmdline: c } && c == *cmdline,
{
    match capture {
        RawCapture::NoCapture => Ok(CapturedOutput::NoneCaptured),
        RawCapture::Combined(events) => {
            let merged = merge_events(&events);
            match utf8_to_string(merged) {
                Some(t) => Ok(CapturedOutput::Combined(t)),
                None => Err(CommandError::Decode { cmdline: cmdline.clone() }),
            }
        },
        RawCapture::Separate { stdout, stderr } => {
            let o = match utf8_to_string(stdout) {
                Some(o) => o,
                None => {
                    return Err(CommandError::Decode { cmdline: cmdline.clone() });
                },
            };
            let e = match utf8_to_string(stderr) {
                Some(e) => e,
                None => {
                    return Err(CommandError::Decode { cmdline: cmdline.clone() });
                },
            };
            Ok(CapturedOutput::Separate { stdout: o, stderr: e })
        },
    }
}

/// Classifies the exit of a completed process: a success flag of true is
/// success regardless of captured text; anything else is the exit error,
/// carrying whatever was captured.
pub fn classify_exit(cmdline: &CommandLine, exit: RawExit, output: CapturedOutput) -> (r: Result<
    ExecutionOutcome,
    CommandError,
>)
    ensures
        r is Ok <==> exit.success,
        r matches Ok(o) ==> o.exit == exit && o.output == output,
        r matches Err(e) ==> e matches CommandError::Exit { cmdline: c, rc, output: out }
            && c == *cmdline && rc == exit && out == output,
{
    if exit.success {
        Ok(ExecutionOutcome { exit, output })
    } else {
        Err(CommandError::Exit { cmdline: cmdline.clone(), rc: exit, output })
    }
}

/// The full outcome classifier: launch failures map to their own error
/// kinds; a completed process has its capture decoded and its exit
/// classified.
pub fn classify_outcome(cmdline: &CommandLine, raw: RawOutcome) -> (r: Result<
    ExecutionOutcome,
    CommandError,
>)
    ensures
        raw matches RawOutcome::SpawnFailed(src) ==> r matches Err(
            CommandError::Startup { cmdline: c, source },
        ) && c == *cmdline && source == src,
        raw matches RawOutcome::WaitFailed(src) ==> r matches Err(
            CommandError::Wait { cmdline: c, source },
        ) && c == *cmdline && source == src,
        raw matches RawOutcome::DrainFailed(src) ==> r matches Err(
            CommandError::Drain { cmdline: c, source },
        ) && c == *cmdline && source == src,
        raw matches RawOutcome::Exited { exit, capture } ==> {
            &&& (r is Ok <==> exit.success && spec_capture_decodable(&capture))
            &&& r matches Ok(o) ==> o.exit == exit && spec_decoded_capture(&capture, &o.output)
            &&& r matches Err(e) ==> {
                if !spec_capture_decodable(&capture) {
                    e matches CommandError::Decode { cmdline: c } && c == *cmdline
                } else {
                    e matches CommandError::Exit { cmdline: c, rc, output } && c == *cmdline
                        && rc == exit && spec_decoded_capture(&capture, &output)
                }
            }
        },
{
    match raw {
        RawOutcome::SpawnFailed(source) => Err(
            CommandError::Startup { cmdline: cmdline.clone(), source },
        ),
        RawOutcome::WaitFailed(source) => Err(
            CommandError::Wait { cmdline: cmdline.clone(), source },
        ),
        RawOutcome::DrainFailed(source) => Err(
            CommandError::Drain { cmdline: cmdline.clone(), source },
        ),
        RawOutcome::Exited { exit, capture } => {
            let output = decode_capture(cmdline, capture)?;
            classify_exit(cmdline, exit, output)
        },
    }
}

/// Mode equivalence on success: for a process that exits successfully, the
/// classifier reports success whatever the mode captured — nothing, a merged
/// transcript, or two streams — provided the captured bytes are text.  Only
/// the payload differs between the modes.
pub proof fn lemma_mode_equivalence(
    cmdline: &CommandLine,
    exit: RawExit,
    r_inherit: Result<ExecutionOutcome, CommandError>,
    r_combined: Result<ExecutionOutcome, CommandError>,
    r_separate: Result<ExecutionOutcome, CommandError>,
    combined: RawCapture,
    separate: RawCapture,
)
    requires
        exit.success,
        combined is Combined,
        separate is Separate,
        spec_capture_decodable(&combined),
        spec_capture_decodable(&separate),
        spec_classified(cmdline, RawOutcome::Exited { exit, capture: RawCapture::NoCapture },
            r_inherit),
        spec_classified(cmdline, RawOutcome::Exited { exit, capture: combined }, r_combined),
        spec_classified(cmdline, RawOutcome::Exited { exit, capture: separate }, r_separate),
    ensures
        r_inherit is Ok,
        r_combined is Ok,
        r_separate is Ok,
        r_inherit matches Ok(o) ==> o.exit == exit,
        r_combined matches Ok(o) ==> o.exit == exit,
        r_separate matches Ok(o) ==> o.exit == exit,
{
}

/// The classifier's contract as a predicate, for stating laws that relate
/// several classified outcomes.
pub open spec fn spec_classified(
    cmdline: &CommandLine,
    raw: RawOutcome,
    r: Result<ExecutionOutcome, CommandError>,
) -> bool {
    match raw {
        RawOutcome::Exited { exit, capture } => {
            &&& (r is Ok <==> exit.success && spec_capture_decodable(&capture))
            &&& (r matches Ok(o) ==> o.exit == exit && spec_decoded_capture(&capture, &o.output))
        },
        _ => true,
    }
}

} // verus!
