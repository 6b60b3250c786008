use devenv_eval_cache::command::{
    extract_op_from_log_line, names_nix, read_log, supports_eval_caching, CommandRun, InternalLog,
    NixCommand, Op, Verbosity,
};
use devenv_eval_cache::input::{EnvInputDesc, FileInputDesc, Input};
use devenv_eval_cache::miss::CacheMissReason;
use devenv_eval_cache::output::ExitStatus;
use devenv_eval_cache::path::FilePath;
use devenv_eval_cache::time::Timestamp;

fn digest(text: &str) -> String {
    format!("<{text}>")
}

fn path(text: &str) -> FilePath {
    FilePath::from_text(text)
}

fn paths(texts: &[&str]) -> Vec<FilePath> {
    texts.iter().map(|text| path(text)).collect()
}

fn file(name: &str, content_hash: &str, secs: i64) -> FileInputDesc {
    FileInputDesc {
        path: path(name),
        is_directory: false,
        content_hash: Some(content_hash.to_string()),
        modified_at: Timestamp { secs, nanos: 0 },
    }
}

fn run(raw: i32) -> CommandRun {
    CommandRun {
        status: ExitStatus { raw },
        stdout: b"out\n".to_vec(),
        stderr: b"err\n".to_vec(),
    }
}

#[test]
fn caching_is_on_unless_asked_otherwise() {
    let mut command = NixCommand::new();
    assert!(command.checks_cache());
    command.force_refresh();
    assert!(!command.checks_cache());
    assert!(command.enable_caching);

    let mut command = NixCommand::new();
    command.enable_eval_cache(false);
    assert!(!command.checks_cache());
    command.enable_eval_cache(true);
    assert!(command.checks_cache());
}

#[test]
fn paths_are_watched_in_order() {
    let mut command = NixCommand::new();
    command.watch_path(path("/a")).unwatch_path(path("/x")).watch_path(path("/b"));
    assert_eq!(command.extra_paths, paths(&["/a", "/b"]));
    assert_eq!(command.excluded_paths, paths(&["/x"]));
}

#[test]
fn a_command_is_asked_to_report() {
    assert_eq!(NixCommand::reporting_args(), vec!["-vv", "--log-format", "internal-json"]);
    assert_eq!(NixCommand::shown_level(), Verbosity::Info);
}

#[test]
fn a_path_can_be_unwatched() {
    let mut command = NixCommand::new();
    command.watch_path(path("/w/gen.nix")).watch_path(path("/w/kept")).watch_path(path("/x/in"));
    command.unwatch_path(path("/w//gen.nix")).unwatch_path(path("/x"));
    assert_eq!(command.extra_paths, paths(&["/w/kept", "/x/in"]));
    assert_eq!(command.excluded_paths, paths(&["/w/gen.nix", "/x"]));
    let ops = vec![
        Op::ReadFile { source: path("/w/gen.nix") },
        Op::ReadFile { source: path("/x/read") },
        Op::ReadFile { source: path("/w/read") },
    ];
    assert_eq!(command.dependencies(ops).sources, paths(&["/w/read", "/w/kept", "/x/in"]));
    command.watch_path(path("/w/gen.nix"));
    assert_eq!(
        command.dependencies(vec![]).sources,
        paths(&["/w/kept", "/x/in", "/w/gen.nix"])
    );
}

#[test]
fn reported_paths_are_filtered_and_watched_ones_are_not() {
    let mut command = NixCommand::new();
    command.watch_path(path("/nix/store/watched")).unwatch_path(path("/home/me/skip"));
    let ops = vec![
        Op::CopiedSource { source: path("/src/copied") },
        Op::EvaluatedFile { source: path("relative.nix") },
        Op::EvaluatedFile { source: path("/src/default.nix") },
        Op::ReadFile { source: path("/nix/store/abc") },
        Op::ReadFile { source: path("/nix/stores/abc") },
        Op::GetEnv { name: "HOME".to_string() },
        Op::ReadDir { source: path("/home/me/skip/deep") },
        Op::ReadDir { source: path("/home/me/skipped") },
        Op::Other,
        Op::PathExists { source: path("/src/maybe") },
        Op::TrackedPath { source: path("/src/kept") },
        Op::GetEnv { name: "PATH".to_string() },
    ];
    let dependencies = command.dependencies(ops);
    assert_eq!(
        dependencies.sources,
        paths(&[
            "/src/copied",
            "/src/default.nix",
            "/nix/stores/abc",
            "/home/me/skipped",
            "/src/maybe",
            "/src/kept",
            "/nix/store/watched",
        ])
    );
    assert_eq!(dependencies.env_names, vec!["HOME", "PATH"]);
}

#[test]
fn a_failed_run_is_passed_on_and_not_recorded() {
    let reason = Some(CacheMissReason::NotCached);
    let finished = NixCommand::new().output(run(256), vec![file("/a", "1", 1)], vec![], reason, &digest);
    assert!(finished.record.is_none());
    assert_eq!(finished.output.status, ExitStatus { raw: 256 });
    assert_eq!(finished.output.stdout, b"out\n".to_vec());
    assert_eq!(finished.output.stderr, b"err\n".to_vec());
    assert!(finished.output.inputs.is_empty());
    assert!(!finished.output.cache_hit);
    assert!(matches!(finished.output.cache_miss_reason, Some(CacheMissReason::NotCached)));

    let finished = NixCommand::new().output(run(256), vec![], vec![], None, &digest);
    assert!(finished.output.cache_miss_reason.is_none());
}

#[test]
fn what_a_run_wrote_is_kept_byte_by_byte() {
    for raw in [0, 256] {
        let run = CommandRun {
            status: ExitStatus { raw },
            stdout: b"a\r\n\xff\nno line end".to_vec(),
            stderr: b"@nix {}\n\xfe".to_vec(),
        };
        let finished = NixCommand::new().output(run, vec![], vec![], None, &digest);
        assert_eq!(finished.output.stdout, b"a\r\n\xff\nno line end".to_vec());
        assert_eq!(finished.output.stderr, b"@nix {}\n\xfe".to_vec());
    }
}

#[test]
fn a_run_is_recorded_under_the_digest_of_its_inputs() {
    let files = vec![file("/b", "2", 1), file("/a", "1", 1), file("/a", "1", 5)];
    let envs = vec![EnvInputDesc { name: "A".to_string(), content_hash: Some("3".to_string()) }];
    let reason = Some(CacheMissReason::NotCached);
    let finished = NixCommand::new().output(run(0), files, envs, reason, &digest);
    assert_eq!(finished.record, Some("<123>".to_string()));
    assert_eq!(finished.output.inputs.len(), 3);
    assert_eq!(finished.output.inputs[0], Input::File(file("/a", "1", 5)));
    assert_eq!(finished.output.stdout, b"out\n".to_vec());
    assert_eq!(finished.output.stderr, b"err\n".to_vec());
    assert!(!finished.output.cache_hit);
    assert!(matches!(finished.output.cache_miss_reason, Some(CacheMissReason::NotCached)));
}

#[test]
fn a_run_without_caching_is_not_recorded() {
    let mut command = NixCommand::new();
    command.enable_eval_cache(false);
    let finished = command.output(run(0), vec![file("/a", "1", 1)], vec![], None, &digest);
    assert!(finished.record.is_none());
    assert_eq!(finished.output.inputs, vec![Input::File(file("/a", "1", 1))]);
    assert!(finished.output.cache_miss_reason.is_none());
}

#[test]
fn a_forced_run_is_recorded() {
    let mut command = NixCommand::new();
    command.force_refresh();
    let finished = command.output(run(0), vec![], vec![], None, &digest);
    assert_eq!(finished.record, Some("<>".to_string()));
}

#[test]
fn the_log_gives_operations_and_what_is_shown() {
    let logs = vec![
        InternalLog::Msg {
            op: Some(Op::GetEnv { name: "A".to_string() }),
            shown: None,
        },
        InternalLog::Other { shown: Some("starting".to_string()) },
        InternalLog::Msg { op: None, shown: Some("warning".to_string()) },
        InternalLog::Msg {
            op: Some(Op::ReadFile { source: path("/a") }),
            shown: Some("read".to_string()),
        },
        InternalLog::Other { shown: None },
    ];
    let (ops, messages) = read_log(&logs);
    assert_eq!(messages, b"starting\nwarning\nread\n".to_vec());
    assert_eq!(ops.len(), 2);
    assert!(matches!(&ops[0], Op::GetEnv { name } if name == "A"));
    assert!(matches!(&ops[1], Op::ReadFile { source } if *source == path("/a")));
}

#[test]
fn only_messages_report_operations() {
    let log = InternalLog::Other { shown: Some("evaluating".to_string()) };
    assert!(extract_op_from_log_line(&log).is_none());
    let log = InternalLog::Msg { op: Some(Op::TrackedPath { source: path("/a") }), shown: None };
    assert!(matches!(extract_op_from_log_line(&log), Some(Op::TrackedPath { .. })));
}

#[test]
fn operations_copy_whole() {
    let ops = vec![
        Op::CopiedSource { source: path("/a") },
        Op::EvaluatedFile { source: path("/a") },
        Op::ReadFile { source: path("/a") },
        Op::ReadDir { source: path("/a") },
        Op::PathExists { source: path("/a") },
        Op::TrackedPath { source: path("/a") },
        Op::GetEnv { name: "A".to_string() },
        Op::Other,
    ];
    for op in ops {
        assert_eq!(format!("{:?}", op.clone()), format!("{op:?}"));
    }
}

#[test]
fn nix_supports_caching() {
    assert!(supports_eval_caching(&path("nix")));
    assert!(supports_eval_caching(&path("/usr/bin/nix")));
    assert!(!supports_eval_caching(&path("nix-build")));
    assert!(!supports_eval_caching(&path("ix")));
    assert!(!supports_eval_caching(&path("")));
    assert!(supports_eval_caching(&FilePath::new(vec![0xff, 0x6e, 0x69, 0x78])));
    assert!(!supports_eval_caching(&FilePath::new(vec![0x6e, 0x69, 0x78, 0xff])));
    assert!(names_nix("\u{e4}nix"));
    assert!(!names_nix("nIx"));
}

#[test]
fn a_single_input_is_named_by_itself() {
    let describe = |reason: CacheMissReason| reason.describe();
    assert_eq!(describe(CacheMissReason::NotCached), "first evaluation");
    assert_eq!(describe(CacheMissReason::InputsChanged), "tracked inputs changed");
    assert_eq!(
        describe(CacheMissReason::FilesModified { paths: paths(&["/a"]) }),
        "/a modified"
    );
    assert_eq!(describe(CacheMissReason::FilesRemoved { paths: paths(&["/a"]) }), "/a removed");
    assert_eq!(
        describe(CacheMissReason::EnvModified { names: vec!["A".to_string()] }),
        "environment variable A changed"
    );
    assert_eq!(
        describe(CacheMissReason::EnvRemoved { names: vec!["A".to_string()] }),
        "environment variable A removed"
    );
}

#[test]
fn several_inputs_are_counted_and_listed() {
    let many: Vec<FilePath> = (0..12).map(|i| path(&format!("/{i}"))).collect();
    assert_eq!(
        CacheMissReason::FilesModified { paths: many }.describe(),
        "12 files modified: /0, /1, /2, /3, /4, /5, /6, /7, /8, /9, /10, /11"
    );
    assert_eq!(
        CacheMissReason::FilesRemoved { paths: paths(&["/a", "/b"]) }.describe(),
        "2 files removed: /a, /b"
    );
    let names = || vec!["A".to_string(), "B".to_string()];
    assert_eq!(
        CacheMissReason::EnvModified { names: names() }.describe(),
        "2 environment variables changed: A, B"
    );
    assert_eq!(
        CacheMissReason::EnvRemoved { names: names() }.describe(),
        "2 environment variables removed: A, B"
    );
    assert_eq!(CacheMissReason::EnvRemoved { names: vec![] }.describe(), "0 environment variables removed: ");
}

#[test]
fn reasons_copy_whole() {
    let reasons = vec![
        CacheMissReason::NotCached,
        CacheMissReason::FilesModified { paths: paths(&["/a", "/b"]) },
        CacheMissReason::FilesRemoved { paths: paths(&["/a"]) },
        CacheMissReason::EnvModified { names: vec!["A".to_string()] },
        CacheMissReason::EnvRemoved { names: vec!["A".to_string()] },
        CacheMissReason::InputsChanged,
    ];
    for reason in reasons {
        assert_eq!(format!("{:?}", reason.clone()), format!("{reason:?}"));
    }
}
