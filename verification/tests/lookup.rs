use devenv_eval_cache::command::{CommandRun, NixCommand};
use devenv_eval_cache::input::{EnvInputDesc, FileInputDesc, Input};
use devenv_eval_cache::miss::{explain_mismatch, CacheMissReason};
use devenv_eval_cache::output::{ExitStatus, Output};
use devenv_eval_cache::path::FilePath;
use devenv_eval_cache::query::{
    conclude_query, judge_inputs, query_cached_output, CacheCheckResult, CacheQuery, CachedCommand,
    CachedEntry, States,
};
use devenv_eval_cache::row::{EnvInputRow, FileInputRow};
use devenv_eval_cache::state::{FileState, InputError};
use devenv_eval_cache::time::Timestamp;

fn digest(text: &str) -> String {
    format!("<{text}>")
}

fn at(secs: i64) -> Timestamp {
    Timestamp { secs, nanos: 0 }
}

fn file(path: &str, content_hash: Option<&str>, secs: i64) -> FileInputDesc {
    FileInputDesc {
        path: FilePath::from_text(path),
        is_directory: false,
        content_hash: content_hash.map(str::to_string),
        modified_at: at(secs),
    }
}

fn env(name: &str, content_hash: Option<&str>) -> EnvInputDesc {
    EnvInputDesc {
        name: name.to_string(),
        content_hash: content_hash.map(str::to_string),
    }
}

fn file_row(path: &str, content_hash: &str, secs: i64) -> FileInputRow {
    FileInputRow {
        path: FilePath::from_text(path),
        is_directory: false,
        content_hash: content_hash.to_string(),
        modified_at: at(secs),
        updated_at: at(secs),
    }
}

fn env_row(name: &str, content_hash: &str) -> EnvInputRow {
    EnvInputRow { name: name.to_string(), content_hash: content_hash.to_string() }
}

fn command(input_hash: &str) -> CachedCommand {
    CachedCommand { id: 4, input_hash: input_hash.to_string(), output: b"out\n".to_vec() }
}

fn entry(input_hash: &str, files: Vec<FileInputRow>, envs: Vec<EnvInputRow>) -> Option<CachedEntry> {
    Some(CachedEntry { command: command(input_hash), files, envs })
}

fn reason_of(query: CacheQuery) -> String {
    match query {
        CacheQuery::Miss(reason) => format!("{reason:?}"),
        CacheQuery::CheckInputs { .. } => "check".to_string(),
    }
}

fn paths_of(paths: &[FilePath]) -> Vec<String> {
    paths.iter().map(FilePath::display).collect()
}

#[test]
fn an_unknown_command_is_not_cached() {
    let query = query_cached_output(None, vec![file("/a", Some("1"), 1)], &digest);
    assert!(matches!(query, CacheQuery::Miss(CacheMissReason::NotCached)));
}

#[test]
fn recorded_inputs_are_to_be_checked() {
    let files = vec![file_row("/b", "2", 1), file_row("/a", "1", 1)];
    let query = query_cached_output(entry("<123>", files, vec![env_row("A", "3")]), vec![], &digest);
    match query {
        CacheQuery::CheckInputs { command, inputs } => {
            assert_eq!(command.id, 4);
            assert_eq!(
                inputs,
                vec![
                    Input::File(file("/a", Some("1"), 1)),
                    Input::File(file("/b", Some("2"), 1)),
                    Input::Env(env("A", Some("3"))),
                ]
            );
        }
        CacheQuery::Miss(reason) => panic!("unexpected miss: {reason:?}"),
    }
}

#[test]
fn a_touched_file_that_is_watched_is_still_known() {
    let files = vec![file_row("/a", "1", 1)];
    let extra = vec![file("/a", Some("1"), 9)];
    match query_cached_output(entry("<1>", files, vec![]), extra, &digest) {
        CacheQuery::CheckInputs { inputs, .. } => {
            assert_eq!(inputs, vec![Input::File(file("/a", Some("1"), 9))]);
        }
        CacheQuery::Miss(reason) => panic!("unexpected miss: {reason:?}"),
    }
}

#[test]
fn a_file_recorded_in_two_ways_may_not_be_known_again() {
    // By its time, the watched file comes right after the description with other
    // contents, and so it is described last in another way.
    let files = vec![file_row("/a", "1", 2), file_row("/a", "2", 1)];
    let extra = vec![file("/a", Some("1"), 0)];
    match query_cached_output(entry("<12>", files, vec![]), extra, &digest) {
        CacheQuery::Miss(CacheMissReason::FilesModified { paths }) => {
            assert_eq!(paths_of(&paths), vec!["/a"]);
        }
        other => panic!("unexpected answer: {other:?}"),
    }
}

#[test]
fn a_vanished_watched_file_is_not_modified() {
    let files = vec![file_row("/p", "1", 5)];
    let extra = vec![file("/p", None, 9), file("/q", Some("2"), 9)];
    match query_cached_output(entry("<1>", files, vec![]), extra, &digest) {
        CacheQuery::Miss(CacheMissReason::FilesModified { paths }) => {
            assert_eq!(paths_of(&paths), vec!["/q"]);
        }
        other => panic!("unexpected answer: {other:?}"),
    }
}

#[test]
fn a_watched_file_that_appears_is_modified() {
    let files = vec![file_row("/p", "", 5)];
    let extra = vec![file("/p", Some("1"), 9), file("/q", Some("2"), 9)];
    match query_cached_output(entry("<>", files, vec![]), extra, &digest) {
        CacheQuery::Miss(CacheMissReason::FilesModified { paths }) => {
            assert_eq!(paths_of(&paths), vec!["/p"]);
        }
        other => panic!("unexpected answer: {other:?}"),
    }
}

#[test]
fn a_watched_file_with_other_contents_is_modified() {
    let files = vec![file_row("/a", "1", 5), file_row("/b", "2", 1)];
    let extra = vec![file("/a", Some("9"), 3), file("/c", Some("3"), 1)];
    match query_cached_output(entry("<12>", files, vec![env_row("A", "")]), extra, &digest) {
        CacheQuery::Miss(CacheMissReason::FilesModified { paths }) => {
            assert_eq!(paths_of(&paths), vec!["/a"]);
        }
        other => panic!("unexpected answer: {other:?}"),
    }
}

#[test]
fn a_newly_watched_file_is_modified() {
    let files = vec![file_row("/b", "2", 1)];
    let extra = vec![file("/d", Some("4"), 1), file("/c", Some("3"), 1)];
    match query_cached_output(entry("<2>", files, vec![]), extra, &digest) {
        CacheQuery::Miss(CacheMissReason::FilesModified { paths }) => {
            assert_eq!(paths_of(&paths), vec!["/c", "/d"]);
        }
        other => panic!("unexpected answer: {other:?}"),
    }
}

#[test]
fn a_digest_that_nothing_explains_is_a_change_of_inputs() {
    let files = vec![file_row("/b", "2", 1)];
    let query = query_cached_output(entry("<other>", files, vec![]), vec![], &digest);
    assert_eq!(reason_of(query), "InputsChanged");
}

#[test]
fn the_digest_decides_alone() {
    let inputs = vec![Input::Env(env("A", Some("1")))];
    let other = vec![Input::Env(env("A", Some("2")))];
    let query = judge_inputs(command("same"), &inputs, other.clone(), &"same".to_string());
    assert_eq!(reason_of(query), "check");
    let query = judge_inputs(command("same"), &inputs, other, &"different".to_string());
    assert_eq!(reason_of(query), "EnvModified { names: [\"A\"] }");
}

fn explained(old: &[Input], new: &[Input]) -> CacheMissReason {
    explain_mismatch(&old.to_vec(), &new.to_vec())
}

#[test]
fn files_explain_before_variables_and_changes_before_absence() {
    let a1 = Input::File(file("/a", Some("1"), 1));
    let a2 = Input::File(file("/a", Some("2"), 1));
    let b = Input::File(file("/b", Some("1"), 1));
    let c = Input::File(file("/c", Some("1"), 1));
    let x1 = Input::Env(env("X", Some("1")));
    let x2 = Input::Env(env("X", None));
    let y = Input::Env(env("Y", Some("1")));
    let z = Input::Env(env("Z", Some("1")));

    let old = [a1.clone(), b.clone(), x1.clone(), y.clone()];
    let reason = explained(&old, &[a2, c.clone(), x2.clone(), z.clone()]);
    assert!(matches!(reason, CacheMissReason::FilesModified { paths } if paths_of(&paths) == ["/a"]));

    let reason = explained(&old, &[a1.clone(), c, x2.clone(), z.clone()]);
    assert!(matches!(reason, CacheMissReason::FilesModified { paths } if paths_of(&paths) == ["/c"]));

    let reason = explained(&old, &[a1.clone(), x2.clone(), z.clone()]);
    assert!(matches!(reason, CacheMissReason::FilesRemoved { paths } if paths_of(&paths) == ["/b"]));

    let reason = explained(&old, &[a1.clone(), b.clone(), x2, z.clone()]);
    assert!(matches!(reason, CacheMissReason::EnvModified { names } if names == ["X"]));

    let reason = explained(&old, &[a1.clone(), b.clone(), x1.clone(), z]);
    assert!(matches!(reason, CacheMissReason::EnvModified { names } if names == ["Z"]));

    let reason = explained(&old, &[a1.clone(), b.clone(), x1.clone()]);
    assert!(matches!(reason, CacheMissReason::EnvRemoved { names } if names == ["Y"]));

    let reason = explained(&old, &[y, x1, b, a1]);
    assert!(matches!(reason, CacheMissReason::InputsChanged));
}

#[test]
fn a_modified_watched_file_is_reported_whenever_it_was_modified() {
    for secs in [1, 5, 9] {
        let files = vec![file_row("/w/a", "1", 5)];
        let extra = vec![file("/w/a", Some("2"), secs)];
        match query_cached_output(entry("<1>", files, vec![]), extra, &digest) {
            CacheQuery::Miss(CacheMissReason::FilesModified { paths }) => {
                assert_eq!(paths_of(&paths), vec!["/w/a"]);
            }
            other => panic!("unexpected answer: {other:?}"),
        }
    }
}

#[test]
fn a_file_is_known_by_its_last_contents_and_all_its_digests() {
    let old = [
        Input::File(file("/a/b", Some("1"), 1)),
        Input::File(file("/a/b", Some("2"), 1)),
    ];
    let named = |new: &[Input]| match explained(&old, new) {
        CacheMissReason::FilesModified { paths } => paths_of(&paths),
        CacheMissReason::InputsChanged => Vec::new(),
        other => panic!("unexpected reason: {other:?}"),
    };
    let new = [
        Input::File(file("/a//b", Some("1"), 1)),
        Input::File(file("/a/./b", Some("2"), 1)),
    ];
    assert!(named(&new).is_empty());
    let new = [Input::File(file("/a/b", Some("2"), 1))];
    assert!(named(&new).is_empty());
    let new = [
        Input::File(file("/a//b", Some("2"), 1)),
        Input::File(file("/a/./b", Some("1"), 1)),
    ];
    assert_eq!(named(&new), vec!["/a//b"]);
    let new = [
        Input::File(file("/a//b", Some("9"), 1)),
        Input::File(file("/a/./b", Some("2"), 1)),
    ];
    assert_eq!(named(&new), vec!["/a//b"]);
}

#[test]
fn a_variable_is_known_by_its_last_contents() {
    let old = [Input::Env(env("A", Some("1"))), Input::Env(env("A", None))];
    let new = [Input::Env(env("A", Some("9"))), Input::Env(env("A", None))];
    assert!(matches!(explained(&old, &new), CacheMissReason::InputsChanged));
    let new = [Input::Env(env("A", None)), Input::Env(env("A", Some("1")))];
    assert!(matches!(explained(&old, &new), CacheMissReason::EnvModified { .. }));
}

fn some_inputs() -> Vec<Input> {
    vec![
        Input::File(file("/a", Some("1"), 1)),
        Input::File(file("/b", Some("2"), 1)),
        Input::Env(env("A", Some("3"))),
        Input::Env(env("B", None)),
    ]
}

fn modified() -> Result<FileState, InputError> {
    Ok(FileState::Modified { new_hash: "n".to_string(), modified_at: at(9) })
}

fn concluded(states: States) -> String {
    match conclude_query(command("h"), some_inputs(), &states).result {
        CacheCheckResult::Hit(_) => "hit".to_string(),
        CacheCheckResult::Miss(reason) => reason.describe(),
    }
}

#[test]
fn unchanged_inputs_give_the_cached_output() {
    let states = vec![
        (0, Ok(FileState::Unchanged)),
        (1, Ok(FileState::Unchanged)),
        (2, Ok(FileState::Unchanged)),
        (3, Ok(FileState::Unchanged)),
    ];
    let conclusion = conclude_query(command("h"), some_inputs(), &states);
    assert!(conclusion.updates.is_empty());
    match conclusion.result {
        CacheCheckResult::Hit(output) => {
            assert_eq!(output.status, ExitStatus { raw: 0 });
            assert_eq!(output.stdout, b"out\n".to_vec());
            assert!(output.stderr.is_empty());
            assert_eq!(output.inputs, some_inputs());
            assert!(output.cache_hit);
            assert!(output.cache_miss_reason.is_none());
        }
        CacheCheckResult::Miss(reason) => panic!("unexpected miss: {reason:?}"),
    }
}

#[test]
fn changed_files_count_before_changed_variables() {
    assert_eq!(
        concluded(vec![
            (3, Ok(FileState::Removed)),
            (2, modified()),
            (1, Ok(FileState::Removed)),
            (0, modified()),
        ]),
        "/a modified"
    );
    assert_eq!(
        concluded(vec![(3, Ok(FileState::Removed)), (2, modified()), (1, Ok(FileState::Removed))]),
        "/b removed"
    );
    assert_eq!(
        concluded(vec![(3, Ok(FileState::Removed)), (2, modified())]),
        "environment variable A changed"
    );
    assert_eq!(
        concluded(vec![(3, Ok(FileState::Removed))]),
        "environment variable B removed"
    );
}

#[test]
fn changed_inputs_are_named_in_the_order_of_the_checks() {
    assert_eq!(concluded(vec![(1, modified()), (0, modified())]), "2 files modified: /b, /a");
}

#[test]
fn what_could_not_be_checked_does_not_rule_out() {
    assert_eq!(concluded(vec![(0, Err(InputError::BeforeEpoch))]), "hit");
    assert_eq!(concluded(vec![]), "hit");
}

#[test]
fn touched_files_are_to_be_recorded_even_on_a_miss() {
    let touched = |secs: i64| Ok(FileState::MetadataModified { modified_at: at(secs) });
    let states = vec![(1, touched(7)), (2, touched(8)), (0, modified())];
    let conclusion = conclude_query(command("h"), some_inputs(), &states);
    assert_eq!(conclusion.updates.len(), 1);
    assert_eq!(conclusion.updates[0].path, FilePath::from_text("/b"));
    assert_eq!(conclusion.updates[0].modified_at, at(7));
    assert!(matches!(
        conclusion.result,
        CacheCheckResult::Miss(CacheMissReason::FilesModified { .. })
    ));
}

#[test]
fn a_recorded_run_is_found_again() {
    let run = CommandRun {
        status: ExitStatus { raw: 0 },
        stdout: b"out\n".to_vec(),
        stderr: Vec::new(),
    };
    let files = vec![file("/b", Some("2"), 3), file("/a", Some("1"), 2), file("/b", Some("2"), 4)];
    let envs = vec![env("A", Some("3")), env("B", None)];
    let finished = NixCommand::new().output(run, files, envs, None, &digest);
    let input_hash = finished.record.unwrap();
    assert_eq!(input_hash, "<123>");

    let mut file_rows = Vec::new();
    let mut env_rows = Vec::new();
    for input in finished.output.inputs {
        match input {
            Input::File(file) => file_rows.push(FileInputRow {
                path: file.path,
                is_directory: file.is_directory,
                content_hash: file.content_hash.unwrap_or_default(),
                modified_at: file.modified_at,
                updated_at: at(100),
            }),
            Input::Env(env) => env_rows.push(EnvInputRow {
                name: env.name,
                content_hash: env.content_hash.unwrap_or_default(),
            }),
        }
    }
    let recorded = CachedEntry {
        command: CachedCommand { id: 1, input_hash, output: finished.output.stdout },
        files: file_rows,
        envs: env_rows,
    };
    let watched = vec![file("/b", Some("2"), 4)];
    match query_cached_output(Some(recorded), watched, &digest) {
        CacheQuery::CheckInputs { command, inputs } => {
            let states: States = (0..inputs.len()).map(|i| (i, Ok(FileState::Unchanged))).collect();
            match conclude_query(command, inputs, &states).result {
                CacheCheckResult::Hit(output) => assert_eq!(output.stdout, b"out\n".to_vec()),
                CacheCheckResult::Miss(reason) => panic!("unexpected miss: {reason:?}"),
            }
        }
        CacheQuery::Miss(reason) => panic!("unexpected miss: {reason:?}"),
    }
}

#[test]
fn an_output_starts_empty_and_copies_whole() {
    let output = Output::default();
    assert!(output.status.success());
    assert!(output.stdout.is_empty() && output.stderr.is_empty() && output.inputs.is_empty());
    assert!(!output.cache_hit && output.cache_miss_reason.is_none());

    let output = Output {
        status: ExitStatus { raw: 256 },
        stdout: vec![1],
        stderr: vec![2],
        inputs: some_inputs(),
        cache_hit: true,
        cache_miss_reason: Some(CacheMissReason::InputsChanged),
    };
    let copy = output.clone();
    assert_eq!(copy.status, output.status);
    assert_eq!(copy.stdout, output.stdout);
    assert_eq!(copy.stderr, output.stderr);
    assert_eq!(copy.inputs, output.inputs);
    assert!(copy.cache_hit);
    assert!(matches!(copy.cache_miss_reason, Some(CacheMissReason::InputsChanged)));
}
