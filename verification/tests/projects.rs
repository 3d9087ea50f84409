//! Projects, selection, the run request, the pull-request workflow and the
//! hosting-service models, on concrete values.

use cmdbatch::cmd::CommandKind;
use cmdbatch::commands::clean_needed;
use cmdbatch::commands::cloc_command;
use cmdbatch::commands::push_needed;
use cmdbatch::commands::rsclean_wanted;
use cmdbatch::commands::ClocJson;
use cmdbatch::commands::Stats;
use cmdbatch::finder::entry_candidate;
use cmdbatch::finder::parse_ignore_file;
use cmdbatch::finder::sort_projects_by_name;
use cmdbatch::finder::Finder;
use cmdbatch::finder::ProbeFacts;
use cmdbatch::github::is_json_mime;
use cmdbatch::github::issue_labels_url;
use cmdbatch::github::labels_url;
use cmdbatch::github::pulls_url;
use cmdbatch::github::GhRepoId;
use cmdbatch::github::StatusError;
use cmdbatch::project::choose_default_branch;
use cmdbatch::project::is_default_branch;
use cmdbatch::project::project_from_manifest;
use cmdbatch::project::python_source_paths;
use cmdbatch::project::ManifestFacts;
use cmdbatch::project::rust_source_dirs;
use cmdbatch::project::Cargo;
use cmdbatch::project::Language;
use cmdbatch::project::Project;
use cmdbatch::project::RawCargo;
use cmdbatch::runner::assemble_runner;
use cmdbatch::runner::is_executable;
use cmdbatch::runner::parse_shebang;
use cmdbatch::runner::shell_or_default;
use cmdbatch::runner::RunOpts;
use cmdbatch::runner::RunOptsError;
use cmdbatch::runner::ScriptResolution;
use cmdbatch::runpr::build_pull_request;
use cmdbatch::runpr::runpr_config;
use cmdbatch::runpr::default_branch_name;
use cmdbatch::runpr::plan_labels;
use cmdbatch::runpr::runpr_after_add;
use cmdbatch::runpr::runpr_should_skip;
use cmdbatch::runpr::strip_skip;
use cmdbatch::runpr::PrFollowUp;
use cmdbatch::runpr::RandomColor;
use cmdbatch::runpr::RunPrConfig;
use cmdbatch::verbosity::init_logging;
use cmdbatch::verbosity::is_active;
use cmdbatch::verbosity::Options;
use cmdbatch::verbosity::Verbosity;

fn project(name: &str, language: Language) -> Project {
    Project {
        dirpath: format!("/work/{name}"),
        name: String::from(name),
        language,
        is_workspace: false,
        is_virtual_workspace: false,
        ghrepo: None,
    }
}

#[test]
fn test_verbosity() {
    let cases = [
        (0u8, false, Verbosity::Normal),
        (1, false, Verbosity::Quiet),
        (2, false, Verbosity::Quiet2),
        (3, false, Verbosity::Quiet2),
        (0, true, Verbosity::Verbose),
        (1, true, Verbosity::Normal),
        (2, true, Verbosity::Quiet),
        (3, true, Verbosity::Quiet2),
    ];
    for (quiet, verbose, verbosity) in cases {
        let opts = Options {
            quiet,
            verbose,
            ..Options::default()
        };
        assert_eq!(opts.verbosity(), verbosity);
    }
}

#[test]
fn test_init_logging() {
    assert!(!init_logging(Verbosity::Normal).debug_enabled);
    assert!(init_logging(Verbosity::Verbose).debug_enabled);
    assert_eq!(init_logging(Verbosity::Quiet).level, Verbosity::Quiet);
}

#[test]
fn test_is_active() {
    assert!(is_active(Verbosity::Quiet, Verbosity::Normal));
    assert!(is_active(Verbosity::Normal, Verbosity::Normal));
    assert!(!is_active(Verbosity::Verbose, Verbosity::Normal));
    assert!(!is_active(Verbosity::Off, Verbosity::Verbose));
}

#[test]
fn test_parse_language() {
    for s in ["Python", "python", "PYTHON", "pYThOn", "py", "Py", "pY", "PY"] {
        assert_eq!(Language::parse(s).unwrap(), Language::Python);
    }
    for s in ["Rust", "RUST", "rust", "RusT", "rs", "Rs", "rS", "RS"] {
        assert_eq!(Language::parse(s).unwrap(), Language::Rust);
    }
    assert!(Language::parse("go").is_err());
    assert!(Language::parse("").is_err());
}

#[test]
fn test_language_ext() {
    assert_eq!(Language::Python.ext(), "py");
    assert_eq!(Language::Rust.ext(), "rs");
}

#[test]
fn test_cargo_from_raw() {
    let pkg = Cargo::from_raw(RawCargo {
        package_name: Some(String::from("alpha")),
        workspace_repo: None,
    })
    .unwrap();
    assert_eq!(pkg.name(), "alpha");
    assert!(!pkg.is_workspace());
    assert!(!pkg.is_virtual_workspace());

    let ws = Cargo::from_raw(RawCargo {
        package_name: Some(String::from("beta")),
        workspace_repo: Some(GhRepoId {
            owner: String::from("me"),
            name: String::from("beta-repo"),
        }),
    })
    .unwrap();
    assert_eq!(ws.name(), "beta");
    assert!(ws.is_workspace());
    assert!(!ws.is_virtual_workspace());

    let virt = Cargo::from_raw(RawCargo {
        package_name: None,
        workspace_repo: Some(GhRepoId {
            owner: String::from("me"),
            name: String::from("gamma"),
        }),
    })
    .unwrap();
    assert_eq!(virt.name(), "gamma");
    assert!(virt.is_workspace());
    assert!(virt.is_virtual_workspace());

    assert!(Cargo::from_raw(RawCargo {
        package_name: None,
        workspace_repo: None,
    })
    .is_err());
}

#[test]
fn test_default_branch() {
    assert!(is_default_branch("main"));
    assert!(is_default_branch("master"));
    assert!(!is_default_branch("trunk"));
    let both = vec![String::from("master"), String::from("main")];
    assert_eq!(choose_default_branch(&both), Some("main"));
    let old = vec![String::from("dev"), String::from("master")];
    assert_eq!(choose_default_branch(&old), Some("master"));
    let none = vec![String::from("dev")];
    assert_eq!(choose_default_branch(&none), None);
}

#[test]
fn test_python_source_paths() {
    let entries = vec![
        String::from("setup.py"),
        String::from("README.md"),
        String::from("tool.py"),
    ];
    assert_eq!(python_source_paths(true, &entries), vec!["src"]);
    assert_eq!(python_source_paths(false, &entries), vec!["setup.py", "tool.py"]);
}

#[test]
fn test_rust_source_dirs() {
    let parents = vec![
        Some(String::from("/p/src")),
        Some(String::from("/p/src")),
        Some(String::from("/p/tools/src")),
    ];
    assert_eq!(
        rust_source_dirs(&parents).unwrap(),
        vec![String::from("/p/src"), String::from("/p/tools/src")]
    );
    let broken = vec![Some(String::from("/p/src")), None];
    assert!(rust_source_dirs(&broken).is_err());
}

#[test]
fn test_finder_accept() {
    let finder = Finder {
        def_branch: true,
        no_def_branch: false,
        exclude: vec![String::from("skipme")],
        filter: None,
        has_github: false,
        no_github: false,
        has_stash: false,
        no_stash: false,
        language: Some(Language::Rust),
        workspace: false,
        not_workspace: false,
        virtual_ws: false,
        not_virtual: false,
    };
    let on_branch = ProbeFacts {
        on_default_branch: true,
        has_stash: false,
        filter_passes: true,
    };
    let off_branch = ProbeFacts {
        on_default_branch: false,
        ..on_branch
    };
    let rusty = project("good", Language::Rust);
    assert!(finder.accept(&rusty, &on_branch));
    assert!(!finder.accept(&rusty, &off_branch));
    let pythonic = project("good", Language::Python);
    assert!(!finder.accept(&pythonic, &on_branch));
    let excluded = project("skipme", Language::Rust);
    assert!(!finder.accept(&excluded, &on_branch));
}

#[test]
fn test_finder_pairs() {
    let finder = Finder {
        def_branch: false,
        no_def_branch: true,
        exclude: vec![],
        filter: None,
        has_github: true,
        no_github: false,
        has_stash: false,
        no_stash: false,
        language: None,
        workspace: false,
        not_workspace: true,
        virtual_ws: false,
        not_virtual: false,
    };
    assert_eq!(finder.def_branch(), Some(false));
    assert_eq!(finder.has_github(), Some(true));
    assert_eq!(finder.has_stash(), None);
    assert_eq!(finder.is_workspace(), Some(false));
    assert_eq!(finder.is_virtual(), None);
}

#[test]
fn test_ignore_file_and_candidates() {
    let ignored = parse_ignore_file("one\ntwo\r\n");
    assert_eq!(ignored, vec!["one", "two"]);
    assert!(entry_candidate("three", &ignored));
    assert!(!entry_candidate("two", &ignored));
    assert!(!entry_candidate(".git", &ignored));
    assert!(!entry_candidate(".hidden", &ignored));
}

#[test]
fn test_sort_projects_by_name() {
    let projects = vec![
        project("zeta", Language::Rust),
        project("alpha", Language::Python),
        project("midway", Language::Rust),
        project("alpha2", Language::Rust),
    ];
    let sorted = sort_projects_by_name(projects);
    let names: Vec<&str> = sorted.iter().map(|p| p.name()).collect();
    assert_eq!(names, vec!["alpha", "alpha2", "midway", "zeta"]);
}

#[test]
fn test_shell_or_default() {
    assert_eq!(shell_or_default(Some(String::from("/bin/zsh"))), "/bin/zsh");
    assert_eq!(shell_or_default(None), "sh");
}

#[test]
fn test_is_executable() {
    assert!(is_executable(0o755));
    assert!(is_executable(0o100));
    assert!(!is_executable(0o644));
    assert!(!is_executable(0o000));
}

#[test]
fn test_parse_shebang() {
    let (interp, args) = parse_shebang("#!/usr/bin/env python3\n").unwrap();
    assert_eq!(interp, "/usr/bin/env");
    assert_eq!(args, vec!["python3"]);
    let (interp2, args2) = parse_shebang("#!/bin/sh").unwrap();
    assert_eq!(interp2, "/bin/sh");
    assert!(args2.is_empty());
    assert!(parse_shebang("#!\n").is_none());
    assert!(parse_shebang("echo hello").is_none());
    assert!(parse_shebang("").is_none());
}

fn run_opts(script: bool, shell: bool, words: &[&str]) -> RunOpts {
    RunOpts {
        script,
        shell,
        command: words.iter().map(|w| String::from(*w)).collect(),
    }
}

#[test]
fn test_assemble_runner_literal() {
    let r = assemble_runner(run_opts(false, false, &["make", "-j4"]), String::from("sh"), None)
        .unwrap();
    assert_eq!(r.command, "make");
    assert_eq!(r.args, vec!["-j4"]);
}

#[test]
fn test_assemble_runner_shell() {
    let r = assemble_runner(
        run_opts(false, true, &["echo hi && ls"]),
        String::from("/bin/bash"),
        None,
    )
    .unwrap();
    assert_eq!(r.command, "/bin/bash");
    assert_eq!(r.args, vec!["-c", "echo hi && ls"]);
}

#[test]
fn test_assemble_runner_executable_script() {
    let r = assemble_runner(
        run_opts(true, false, &["./tool.sh", "extra"]),
        String::from("sh"),
        Some(ScriptResolution::Executable {
            canonical: String::from("/abs/tool.sh"),
        }),
    )
    .unwrap();
    assert_eq!(r.command, "/abs/tool.sh");
    assert_eq!(r.args, vec!["extra"]);
}

#[test]
fn test_assemble_runner_shebang_script() {
    let r = assemble_runner(
        run_opts(true, false, &["tool.py", "--fast"]),
        String::from("sh"),
        Some(ScriptResolution::Shebang {
            first_line: String::from("#!/usr/bin/env python3\n"),
            canonical: String::from("/abs/tool.py"),
        }),
    )
    .unwrap();
    assert_eq!(r.command, "/usr/bin/env");
    assert_eq!(r.args, vec!["python3", "/abs/tool.py", "--fast"]);
}

#[test]
fn test_assemble_runner_no_shebang() {
    let r = assemble_runner(
        run_opts(true, false, &["tool.txt"]),
        String::from("sh"),
        Some(ScriptResolution::Shebang {
            first_line: String::from("just text"),
            canonical: String::from("/abs/tool.txt"),
        }),
    );
    assert!(r.is_err());
}

#[test]
fn test_run_opts_error_description() {
    let io = || cmdbatch::outcome::IoErrorInfo {
        message: String::from("denied"),
        os_code: Some(13),
    };
    assert_eq!(
        RunOptsError::Metadata(io()).describe(),
        "failed to get filesystem metadata for script"
    );
    assert_eq!(RunOptsError::Open(io()).describe(), "failed to open script for reading");
    assert_eq!(
        RunOptsError::Read(io()).describe(),
        "failed to read shebang line from script"
    );
    assert_eq!(RunOptsError::NoShebang.describe(), "script does not start with shebang");
    assert_eq!(
        RunOptsError::Canonicalize(io()).describe(),
        "failed to canonicalize script path"
    );
}

#[test]
fn test_runner_command_for() {
    let r = assemble_runner(run_opts(false, false, &["make", "test"]), String::from("sh"), None)
        .unwrap();
    let p = project("proj", Language::Rust);
    let c = r.command_for(&p);
    assert_eq!(c.program, "make");
    assert_eq!(c.args, vec!["test"]);
    assert_eq!(c.cwd.as_deref(), Some("/work/proj"));
    assert_eq!(c.kind, CommandKind::Run);
    assert_eq!(c.cmdline.display(), "make test [cwd=/work/proj]");
}

#[test]
fn test_strip_skip() {
    let cases = [
        ("Foo some bars", "Foo some bars"),
        ("[skip ci] Foo some bars", "Foo some bars"),
        ("Foo some bars [skip ci]", "Foo some bars"),
        ("[ci skip] Foo some bars", "Foo some bars"),
        ("Foo some bars [ci skip]", "Foo some bars"),
        ("[no ci] Foo some bars", "Foo some bars"),
        ("Foo some bars [no ci]", "Foo some bars"),
        ("[skip actions] Foo some bars", "Foo some bars"),
        ("Foo some bars [skip actions]", "Foo some bars"),
        ("[actions skip] Foo some bars", "Foo some bars"),
        ("Foo some bars [actions skip]", "Foo some bars"),
        ("[skip] Foo some bars", "[skip] Foo some bars"),
        ("[ci] Foo some bars", "[ci] Foo some bars"),
        ("[skipci] Foo some bars", "[skipci] Foo some bars"),
        ("skip ci Foo some bars", "skip ci Foo some bars"),
    ];
    for (before, after) in cases {
        assert_eq!(strip_skip(before), after, "on {before:?}");
    }
}

#[test]
fn test_default_branch_name() {
    assert_eq!(
        default_branch_name(2023, 9, 24, 7, 5, 30),
        "forall-runpr-20230924070530"
    );
    assert_eq!(default_branch_name(1, 12, 31, 23, 59, 0), "forall-runpr-00011231235900");
}

#[test]
fn test_random_color() {
    let color = RandomColor;
    assert_eq!(color.generate(0), "0052cc");
    assert_eq!(color.generate(15), "fef2c0");
    assert_eq!(color.generate(16), "0052cc");
    assert_eq!(color.generate(16 * 5 + 2), "0e8a16");
}

#[test]
fn test_runpr_skip_and_follow_up() {
    assert!(runpr_should_skip(false, false));
    assert!(runpr_should_skip(true, true));
    assert!(!runpr_should_skip(true, false));
    assert_eq!(runpr_after_add(false), PrFollowUp::AbandonBranch);
    assert_eq!(runpr_after_add(true), PrFollowUp::PublishPr);
}

#[test]
fn test_project_from_manifest() {
    let py = project_from_manifest(
        String::from("/work/snake"),
        None,
        ManifestFacts::Pyproject {
            name: String::from("snake"),
        },
    );
    assert_eq!(py.name(), "snake");
    assert_eq!(py.language(), Language::Python);
    assert!(!py.is_workspace());

    let cargo = Cargo::from_raw(RawCargo {
        package_name: None,
        workspace_repo: Some(GhRepoId {
            owner: String::from("me"),
            name: String::from("crab"),
        }),
    })
    .unwrap();
    let rs = project_from_manifest(
        String::from("/work/crab"),
        Some(GhRepoId {
            owner: String::from("me"),
            name: String::from("crab"),
        }),
        ManifestFacts::CargoManifest(cargo),
    );
    assert_eq!(rs.name(), "crab");
    assert_eq!(rs.language(), Language::Rust);
    assert!(rs.is_workspace());
    assert!(rs.is_virtual_workspace());
    assert!(rs.has_github());
}

#[test]
fn test_runpr_config_defaults() {
    let cfg = runpr_config(
        None,
        String::from("[skip ci] Fix things"),
        None,
        None,
        vec![],
        vec![],
        2024,
        1,
        2,
        3,
        4,
        5,
    );
    assert_eq!(cfg.branch, "forall-runpr-20240102030405");
    assert_eq!(cfg.pr_title, "Fix things");
    assert_eq!(cfg.message, "[skip ci] Fix things");

    let explicit = runpr_config(
        Some(String::from("feature")),
        String::from("msg"),
        Some(String::from("A title")),
        Some(String::from("body text")),
        vec![String::from("l1")],
        vec![],
        2024,
        1,
        2,
        3,
        4,
        5,
    );
    assert_eq!(explicit.branch, "feature");
    assert_eq!(explicit.pr_title, "A title");
    assert_eq!(explicit.pr_body.as_deref(), Some("body text"));
}

#[test]
fn test_build_pull_request() {
    let cfg = RunPrConfig {
        branch: String::from("forall-runpr-20230924070530"),
        message: String::from("Update deps"),
        pr_title: String::from("Update deps"),
        pr_body: None,
        label: vec![],
        soft_label: vec![],
    };
    let pr = build_pull_request(&cfg, "main");
    assert_eq!(pr.title, "Update deps");
    assert_eq!(pr.head, "forall-runpr-20230924070530");
    assert_eq!(pr.base, "main");
    assert!(pr.body.is_none());
    assert!(pr.maintainer_can_modify);
}

#[test]
fn test_plan_labels() {
    let existing = vec![String::from("Bug"), String::from("enhancement")];
    let want = vec![String::from("bug"), String::from("automation")];
    let soft = vec![String::from("Enhancement"), String::from("wontfix")];
    let picks = vec![3u64, 5u64];
    let plan = plan_labels(&existing, &want, &soft, &picks);
    // "bug" exists (case-insensitively); "automation" is created with the
    // color its own draw picked
    assert_eq!(plan.to_create, vec![(String::from("automation"), String::from("b60205"))]);
    // every wanted label is applied; of the soft ones only the present one
    assert_eq!(
        plan.to_apply,
        vec![String::from("bug"), String::from("automation"), String::from("Enhancement")]
    );
}

#[test]
fn test_cloc_command_line() {
    let p = project("counts", Language::Rust);
    let srcs = vec![String::from("src"), String::from("tools/src")];
    let c = cloc_command(&p, &srcs);
    assert_eq!(c.kind, CommandKind::Filter);
    assert_eq!(
        c.cmdline.display(),
        "cloc '--include-ext=rs' --json src tools/src [cwd=/work/counts]"
    );
}

#[test]
fn test_cloc_json() {
    let data = ClocJson {
        python: None,
        rust: Some(Stats { code: 1234 }),
    };
    assert_eq!(data.for_language(Language::Rust), Some(Stats { code: 1234 }));
    assert_eq!(data.for_language(Language::Python), None);
    assert_eq!(data.code_count(Language::Rust), 1234);
    assert_eq!(data.code_count(Language::Python), 0);
}

#[test]
fn test_clean_and_push_and_rsclean() {
    assert!(clean_needed("would remove target/"));
    assert!(!clean_needed(""));
    assert!(push_needed("2"));
    assert!(!push_needed("0"));
    assert!(!push_needed("junk"));
    assert!(!push_needed(""));
    assert!(!push_needed("99999999999999999999999999"));
    assert!(rsclean_wanted(Language::Rust, true));
    assert!(!rsclean_wanted(Language::Rust, false));
    assert!(!rsclean_wanted(Language::Python, true));
}

#[test]
fn test_github_urls() {
    let repo = GhRepoId {
        owner: String::from("someone"),
        name: String::from("thing"),
    };
    assert_eq!(repo.api_url(), "https://api.github.com/repos/someone/thing");
    let base = repo.api_url();
    assert_eq!(pulls_url(&base), "https://api.github.com/repos/someone/thing/pulls");
    assert_eq!(labels_url(&base), "https://api.github.com/repos/someone/thing/labels");
    assert_eq!(
        issue_labels_url(&base, 41),
        "https://api.github.com/repos/someone/thing/issues/41/labels"
    );
}

#[test]
fn test_is_json_mime() {
    assert!(is_json_mime("application", "json", None));
    assert!(is_json_mime("application", "vnd.github+json", Some("json")));
    assert!(!is_json_mime("text", "json", None));
    assert!(!is_json_mime("application", "xml", None));
    assert!(!is_json_mime("application", "xml", Some("xml")));
}

#[test]
fn test_status_error() {
    let e = StatusError::from_parts(
        "GET",
        "https://api.github.com/repos/a/b",
        404,
        "Not Found",
        Some(String::from("{\"message\": \"gone\"}")),
    );
    assert_eq!(e.status, "404 Not Found");
    assert_eq!(e.body(), Some("{\"message\": \"gone\"}"));
    let quiet = StatusError::from_parts("GET", "u", 500, "Internal Server Error", None);
    assert_eq!(quiet.body(), None);
}
