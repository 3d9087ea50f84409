//! The decisions made on what the revision-control queries return, and the
//! command texts the workflows build.

use cmdbatch::cmd::CommandKind;
use cmdbatch::cmd::CommandPlus;
use cmdbatch::commands::absorb_exit;
use cmdbatch::commands::commit_needed_from;
use cmdbatch::logging::cmd_echo_line;
use cmdbatch::logging::exit_text;
use cmdbatch::outcome::CommandError;
use cmdbatch::outcome::IoErrorInfo;
use cmdbatch::outcome::RawCapture;
use cmdbatch::outcome::RawExit;
use cmdbatch::outcome::RawOutcome;
use cmdbatch::project::check_from;
use cmdbatch::project::has_stash_from;
use cmdbatch::project::origin_url_from;
use cmdbatch::project::staged_changes_from_code;
use cmdbatch::project::stash_needed;
use cmdbatch::project::Language;
use cmdbatch::project::Project;
use cmdbatch::runpr::git_checkout_new_branch;

fn sample_project() -> Project {
    Project {
        dirpath: String::from("/work/sample"),
        name: String::from("sample"),
        language: Language::Rust,
        is_workspace: false,
        is_virtual_workspace: false,
        ghrepo: None,
    }
}

fn exit_error(code: i32) -> CommandError {
    let c = CommandPlus::new("git");
    match c.finish_run(RawOutcome::Exited {
        exit: RawExit::from_code(Some(code)),
        capture: RawCapture::NoCapture,
    }) {
        Err(e) => e,
        Ok(()) => panic!("a nonzero exit must classify as an error"),
    }
}

fn startup_error() -> CommandError {
    let c = CommandPlus::new("git");
    match c.finish_run(RawOutcome::SpawnFailed(IoErrorInfo {
        message: String::from("gone"),
        os_code: Some(2),
    })) {
        Err(e) => e,
        Ok(()) => panic!("a spawn failure must classify as an error"),
    }
}

#[test]
fn test_stash_decisions() {
    assert!(stash_needed(" M file.rs"));
    assert!(!stash_needed(""));
    assert!(staged_changes_from_code(Some(1)));
    assert!(!staged_changes_from_code(Some(0)));
    assert!(!staged_changes_from_code(None));
}

#[test]
fn test_has_stash_from() {
    match has_stash_from(Ok(String::from("deadbeef"))) {
        Ok(v) => assert!(v),
        Err(_) => panic!("output means a stash exists"),
    }
    match has_stash_from(Ok(String::new())) {
        Ok(v) => assert!(!v),
        Err(_) => panic!("empty output means no stash"),
    }
    match has_stash_from(Err(exit_error(1))) {
        Ok(v) => assert!(!v),
        Err(_) => panic!("exit code one means no stash"),
    }
    assert!(has_stash_from(Err(exit_error(2))).is_err());
    assert!(has_stash_from(Err(startup_error())).is_err());
}

#[test]
fn test_check_from() {
    match check_from(Ok(())) {
        Ok(v) => assert!(v),
        Err(_) => panic!("success accepts the project"),
    }
    match check_from(Err(exit_error(7))) {
        Ok(v) => assert!(!v),
        Err(_) => panic!("a nonzero exit merely rejects the project"),
    }
    assert!(check_from(Err(startup_error())).is_err());
}

#[test]
fn test_origin_url_from() {
    match origin_url_from(Ok(String::from("https://github.com/a/b"))) {
        Ok(Some(url)) => assert_eq!(url, "https://github.com/a/b"),
        _ => panic!("a reported URL comes through"),
    }
    match origin_url_from(Err(exit_error(2))) {
        Ok(None) => {}
        _ => panic!("exit code two means no such remote"),
    }
    assert!(origin_url_from(Err(exit_error(1))).is_err());
    assert!(origin_url_from(Err(startup_error())).is_err());
}

#[test]
fn test_absorb_exit_and_commit_needed() {
    assert!(absorb_exit(Ok(())).is_ok());
    assert!(absorb_exit(Err(exit_error(1))).is_ok());
    assert!(absorb_exit(Err(startup_error())).is_err());
    match commit_needed_from(Ok(())) {
        Ok(v) => assert!(!v),
        Err(_) => panic!("a quiet diff means nothing to commit"),
    }
    match commit_needed_from(Err(exit_error(1))) {
        Ok(v) => assert!(v),
        Err(_) => panic!("a nonzero diff exit means changes to commit"),
    }
    assert!(commit_needed_from(Err(startup_error())).is_err());
}

#[test]
fn test_checkout_command_text() {
    let p = sample_project();
    let c = git_checkout_new_branch(&p, "forall-runpr-20230924070530", "main");
    assert_eq!(c.kind, CommandKind::Operational);
    assert_eq!(
        c.cmdline.display(),
        "git checkout -b forall-runpr-20230924070530 main [cwd=/work/sample]"
    );
}

#[test]
fn test_cmd_echo_line() {
    let mut c = CommandPlus::new("git");
    c.arg("status");
    assert_eq!(cmd_echo_line(c.cmdline()), "+git status");
    c.current_dir("/work/sample");
    assert_eq!(cmd_echo_line(c.cmdline()), "+git status [cwd=/work/sample]");
}

#[test]
fn test_headline() {
    assert_eq!(exit_error(5).headline(), "command `git` failed: exit status: 5");
    assert_eq!(startup_error().headline(), "failed to run `git`");
}

#[test]
fn test_exit_text() {
    assert_eq!(exit_text(&RawExit::from_code(Some(3))), "exit status: 3");
    assert_eq!(exit_text(&RawExit::from_code(Some(0))), "exit status: 0");
    assert_eq!(exit_text(&RawExit::from_code(Some(-1))), "exit status: -1");
    assert_eq!(exit_text(&RawExit::from_code(None)), "terminated abnormally");
}
