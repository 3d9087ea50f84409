//! The execution engine on synthesized launch results: mode policy,
//! classification, stream merging, batch semantics and failure reports.

use cmdbatch::batch::run_batch;
use cmdbatch::batch::step_result_of;
use cmdbatch::batch::BatchItem;
use cmdbatch::batch::StepResult;
use cmdbatch::cmd::CommandKind;
use cmdbatch::cmd::CommandPlus;
use cmdbatch::cmd::ExecMode;
use cmdbatch::mux::merge_events;
use cmdbatch::mux::RawEvent;
use cmdbatch::mux::StreamTag;
use cmdbatch::outcome::CommandError;
use cmdbatch::outcome::IoErrorInfo;
use cmdbatch::outcome::RawCapture;
use cmdbatch::outcome::RawExit;
use cmdbatch::outcome::RawOutcome;
use cmdbatch::verbosity::Verbosity;

fn ok_of<T>(r: Result<T, CommandError>) -> T {
    match r {
        Ok(v) => v,
        Err(e) => panic!("expected success, got: {}", e.report_lines().join(" / ")),
    }
}

fn err_of<T>(r: Result<T, CommandError>) -> CommandError {
    match r {
        Ok(_) => panic!("expected failure"),
        Err(e) => e,
    }
}

fn ev(tag: StreamTag, line: &str) -> RawEvent {
    RawEvent {
        tag,
        bytes: line.as_bytes().to_vec(),
    }
}

fn cmd(kind: CommandKind) -> CommandPlus {
    let mut c = CommandPlus::new("prog");
    c.arg("arg");
    c.kind(kind);
    c
}

#[test]
fn test_policy_table() {
    assert_eq!(CommandKind::Run.cmdline_verbosity(), Verbosity::Normal);
    assert_eq!(CommandKind::Operational.cmdline_verbosity(), Verbosity::Normal);
    assert_eq!(CommandKind::Filter.cmdline_verbosity(), Verbosity::Verbose);
    assert_eq!(CommandKind::Run.output_verbosity(), Verbosity::Verbose);
    assert_eq!(CommandKind::Operational.output_verbosity(), Verbosity::Normal);
    assert_eq!(CommandKind::Filter.output_verbosity(), Verbosity::Off);
}

#[test]
fn test_run_mode_policy() {
    // the user-facing kind is quiet by default and live only when raised
    assert_eq!(cmd(CommandKind::Run).run_mode(Verbosity::Normal), ExecMode::CaptureCombined);
    assert_eq!(cmd(CommandKind::Run).run_mode(Verbosity::Verbose), ExecMode::Inherit);
    // ordinary commands are live unless the operator asked for quiet
    assert_eq!(cmd(CommandKind::Operational).run_mode(Verbosity::Normal), ExecMode::Inherit);
    assert_eq!(
        cmd(CommandKind::Operational).run_mode(Verbosity::Quiet),
        ExecMode::CaptureCombined
    );
    // bookkeeping queries are never live
    assert_eq!(cmd(CommandKind::Filter).run_mode(Verbosity::Verbose), ExecMode::CaptureCombined);
    assert_eq!(cmd(CommandKind::Filter).run_mode(Verbosity::Normal), ExecMode::CaptureCombined);
}

#[test]
fn test_echo_policy() {
    assert!(cmd(CommandKind::Run).should_echo(Verbosity::Normal));
    assert!(!cmd(CommandKind::Run).should_echo(Verbosity::Quiet));
    assert!(!cmd(CommandKind::Filter).should_echo(Verbosity::Normal));
    assert!(cmd(CommandKind::Filter).should_echo(Verbosity::Verbose));
}

#[test]
fn test_mode_equivalence_on_success() {
    // a program that exits zero reports success in every mode
    let exit = RawExit::from_code(Some(0));
    let inherit = cmd(CommandKind::Run).finish_run(RawOutcome::Exited {
        exit,
        capture: RawCapture::NoCapture,
    });
    assert!(inherit.is_ok());
    let combined = cmd(CommandKind::Run).finish_run(RawOutcome::Exited {
        exit,
        capture: RawCapture::Combined(vec![ev(StreamTag::Stdout, "out\n")]),
    });
    assert!(combined.is_ok());
    let separate = cmd(CommandKind::Run).finish_run(RawOutcome::Exited {
        exit,
        capture: RawCapture::Separate {
            stdout: b"out\n".to_vec(),
            stderr: b"err\n".to_vec(),
        },
    });
    assert!(separate.is_ok());
}

#[test]
fn test_exit_classification_code_three() {
    let exit = RawExit::from_code(Some(3));
    let events = vec![
        ev(StreamTag::Stdout, "starting\n"),
        ev(StreamTag::Stderr, "oh no\n"),
    ];
    let r = cmd(CommandKind::Run).finish_run(RawOutcome::Exited {
        exit,
        capture: RawCapture::Combined(events),
    });
    match r {
        Err(e @ CommandError::Exit { .. }) => {
            match &e {
                CommandError::Exit { rc, .. } => assert_eq!(rc.code, Some(3)),
                _ => unreachable!(),
            }
            assert_eq!(e.transcript(), Some("starting\noh no\n"));
        }
        _ => panic!("expected an exit error"),
    }
}

#[test]
fn test_startup_classification() {
    let r = cmd(CommandKind::Run).finish_run(RawOutcome::SpawnFailed(IoErrorInfo {
        message: String::from("no such file"),
        os_code: Some(2),
    }));
    assert!(matches!(r, Err(CommandError::Startup { .. })));
}

#[test]
fn test_wait_and_drain_classification() {
    let io = IoErrorInfo {
        message: String::from("broken"),
        os_code: None,
    };
    let r = cmd(CommandKind::Run).finish_run(RawOutcome::WaitFailed(io));
    assert!(matches!(r, Err(CommandError::Wait { .. })));
    let io2 = IoErrorInfo {
        message: String::from("broken"),
        os_code: None,
    };
    let r2 = cmd(CommandKind::Run).finish_run(RawOutcome::DrainFailed(io2));
    assert!(matches!(r2, Err(CommandError::Drain { .. })));
}

#[test]
fn test_undecodable_output() {
    let exit = RawExit::from_code(Some(0));
    let bad = RawEvent {
        tag: StreamTag::Stdout,
        bytes: vec![0xff, 0xfe, b'\n'],
    };
    let r = cmd(CommandKind::Run).finish_run(RawOutcome::Exited {
        exit,
        capture: RawCapture::Combined(vec![bad]),
    });
    assert!(matches!(r, Err(CommandError::Decode { .. })));
}

#[test]
fn test_check_output_returns_stdout() {
    let exit = RawExit::from_code(Some(0));
    let r = cmd(CommandKind::Filter).finish_check_output(RawOutcome::Exited {
        exit,
        capture: RawCapture::Separate {
            stdout: b"value\n".to_vec(),
            stderr: b"noise\n".to_vec(),
        },
    });
    assert_eq!(ok_of(r), "value\n");
}

#[test]
fn test_merge_keeps_same_stream_order() {
    // stdout wrote A1 then A2; stderr wrote B1 somewhere in between
    let orders = [
        vec![
            ev(StreamTag::Stdout, "A1\n"),
            ev(StreamTag::Stdout, "A2\n"),
            ev(StreamTag::Stderr, "B1\n"),
        ],
        vec![
            ev(StreamTag::Stdout, "A1\n"),
            ev(StreamTag::Stderr, "B1\n"),
            ev(StreamTag::Stdout, "A2\n"),
        ],
        vec![
            ev(StreamTag::Stderr, "B1\n"),
            ev(StreamTag::Stdout, "A1\n"),
            ev(StreamTag::Stdout, "A2\n"),
        ],
    ];
    for events in orders {
        let merged = String::from_utf8(merge_events(&events)).unwrap();
        let a1 = merged.find("A1\n").expect("A1 present");
        let a2 = merged.find("A2\n").expect("A2 present");
        assert!(a1 < a2, "same-stream order must be kept");
        assert_eq!(merged.matches("B1\n").count(), 1, "B1 appears exactly once");
    }
}

fn item(name: &str, result: StepResult) -> BatchItem {
    BatchItem {
        name: String::from(name),
        result,
    }
}

#[test]
fn test_keep_going_batch() {
    // five projects; the third one's command exits nonzero
    let items = vec![
        item("p1", StepResult::Success),
        item("p2", StepResult::Success),
        item("p3", StepResult::ExitFailure),
        item("p4", StepResult::Success),
        item("p5", StepResult::Success),
    ];
    let (processed, failures, aborted) = run_batch(true, &items);
    assert_eq!(processed, 5);
    assert_eq!(failures, vec![String::from("p3")]);
    assert!(!aborted);
}

#[test]
fn test_fail_fast_batch() {
    let items = vec![
        item("p1", StepResult::Success),
        item("p2", StepResult::Success),
        item("p3", StepResult::ExitFailure),
        item("p4", StepResult::Success),
        item("p5", StepResult::Success),
    ];
    let (processed, failures, aborted) = run_batch(false, &items);
    assert_eq!(processed, 3);
    assert!(failures.is_empty());
    assert!(aborted);
}

#[test]
fn test_fatal_aborts_even_when_keeping_going() {
    let items = vec![
        item("p1", StepResult::Success),
        item("p2", StepResult::FatalFailure),
        item("p3", StepResult::Success),
    ];
    let (processed, failures, aborted) = run_batch(true, &items);
    assert_eq!(processed, 2);
    assert!(failures.is_empty());
    assert!(aborted);
}

#[test]
fn test_step_result_classification() {
    assert_eq!(step_result_of(&Ok(())), StepResult::Success);
    let exit = cmd(CommandKind::Run).finish_run(RawOutcome::Exited {
        exit: RawExit::from_code(Some(1)),
        capture: RawCapture::NoCapture,
    });
    assert_eq!(step_result_of(&exit), StepResult::ExitFailure);
    let spawn = cmd(CommandKind::Run).finish_run(RawOutcome::SpawnFailed(IoErrorInfo {
        message: String::from("gone"),
        os_code: None,
    }));
    assert_eq!(step_result_of(&spawn), StepResult::FatalFailure);
}

#[test]
fn test_quiet_failure_report_shows_transcript_once() {
    // under the user-facing kind at default verbosity the transcript is
    // printed exactly once, in full, and only on failure
    let c = cmd(CommandKind::Run);
    assert_eq!(c.run_mode(Verbosity::Normal), ExecMode::CaptureCombined);
    let events = vec![
        ev(StreamTag::Stdout, "line one\n"),
        ev(StreamTag::Stdout, "line two\n"),
    ];
    let err = err_of(c.finish_run(RawOutcome::Exited {
        exit: RawExit::from_code(Some(7)),
        capture: RawCapture::Combined(events),
    }));
    let report = err.report_lines();
    assert_eq!(report.len(), 2);
    assert_eq!(report[0], "command `prog arg` failed: exit status: 7");
    assert_eq!(report[1], "[output] line one\n[output] line two\n");
    let whole = report.join("\n");
    assert_eq!(whole.matches("line one").count(), 1);
}

#[test]
fn test_quiet_success_prints_nothing() {
    let c = cmd(CommandKind::Run);
    let r = c.finish_run(RawOutcome::Exited {
        exit: RawExit::from_code(Some(0)),
        capture: RawCapture::Combined(vec![ev(StreamTag::Stdout, "chatty output\n")]),
    });
    // success carries no text at all, so nothing can be printed
    assert!(matches!(r, Ok(())));
}

#[test]
fn test_separate_capture_error_carries_both_streams() {
    let err = err_of(cmd(CommandKind::Filter).finish_check_output(RawOutcome::Exited {
        exit: RawExit::from_code(Some(2)),
        capture: RawCapture::Separate {
            stdout: b"partial value\n".to_vec(),
            stderr: b"fatal: nope\n".to_vec(),
        },
    }));
    assert_eq!(err.stdout(), Some("partial value\n"));
    assert_eq!(err.stderr(), Some("fatal: nope\n"));
    assert_eq!(err.transcript(), None);
    let report = err.report_lines();
    assert_eq!(report.len(), 3);
    assert_eq!(report[1], "[stdout] partial value\n");
    assert_eq!(report[2], "[stderr] fatal: nope\n");
}

#[test]
fn test_startup_report_carries_cause() {
    let err = err_of(cmd(CommandKind::Run).finish_run(RawOutcome::SpawnFailed(IoErrorInfo {
        message: String::from("no such file or directory"),
        os_code: Some(2),
    })));
    let report = err.report_lines();
    assert_eq!(report.len(), 2);
    assert_eq!(report[0], "failed to run `prog arg`");
    assert_eq!(report[1], "caused by: no such file or directory");
}

#[test]
fn test_abnormal_exit_text() {
    let err = err_of(cmd(CommandKind::Run).finish_run(RawOutcome::Exited {
        exit: RawExit::from_code(None),
        capture: RawCapture::NoCapture,
    }));
    let report = err.report_lines();
    assert_eq!(report[0], "command `prog arg` failed: terminated abnormally");
}
