use devenv_eval_cache::digest::{copy_digest, digest_of, same_digest};
use devenv_eval_cache::input::{EnvInputDesc, FileInputDesc, Input, InputIdentifier};
use devenv_eval_cache::normal::{dedup_inputs, normalise, sort_inputs};
use devenv_eval_cache::order::Comparison;
use devenv_eval_cache::path::FilePath;
use devenv_eval_cache::row::{read_rows, EnvInputRow, FileInputRow};
use devenv_eval_cache::time::{truncate_to_seconds, BeforeEpoch, Timestamp};
use std::time::{SystemTime, UNIX_EPOCH};

const EPOCH: Timestamp = Timestamp { secs: 0, nanos: 0 };

fn at(secs: i64) -> Timestamp {
    Timestamp { secs, nanos: 0 }
}

fn digest(text: &str) -> String {
    format!("<{text}>")
}

fn file(path: &str, content_hash: Option<&str>, modified_at: Timestamp) -> Input {
    Input::File(FileInputDesc {
        path: FilePath::from_text(path),
        is_directory: false,
        content_hash: content_hash.map(str::to_string),
        modified_at,
    })
}

fn env(name: &str, content_hash: Option<&str>) -> Input {
    Input::Env(EnvInputDesc {
        name: name.to_string(),
        content_hash: content_hash.map(str::to_string),
    })
}

fn spelled(input: &Input) -> String {
    match input {
        Input::File(file) => format!(
            "{}@{}={}",
            file.path.display(),
            file.modified_at.secs,
            file.content_hash.clone().unwrap_or_default()
        ),
        Input::Env(env) => format!("{}={}", env.name, env.content_hash.clone().unwrap_or_default()),
    }
}

fn all_spelled(inputs: &[Input]) -> Vec<String> {
    inputs.iter().map(spelled).collect()
}

#[test]
fn test_input_dedup_by() {
    let path = FilePath::from_text("test.txt");
    let content_hash = Some("abc123".to_string());
    let file1 = Input::File(FileInputDesc {
        path: path.clone(),
        is_directory: false,
        content_hash: content_hash.clone(),
        modified_at: EPOCH,
    });
    let file2 = Input::File(FileInputDesc {
        path: path.clone(),
        is_directory: false,
        content_hash: content_hash.clone(),
        modified_at: at(1),
    });

    let mut inputs = vec![file1, file2.clone()];
    sort_inputs(&mut inputs);
    inputs.dedup_by(Input::dedup);
    assert!(inputs.len() == 1);
    assert_eq!(inputs[0], file2);
}

#[test]
fn test_truncate_system_time_to_seconds() {
    let time = SystemTime::now().duration_since(UNIX_EPOCH).unwrap();
    let time = Timestamp { secs: time.as_secs() as i64, nanos: time.subsec_nanos() };
    let truncated_time = truncate_to_seconds(time).unwrap();
    let subsec_millis = truncated_time.nanos / 1_000_000;
    // Test that the last 3 digits are zeros
    assert_eq!(subsec_millis % 1_000, 0);
    assert_eq!(truncated_time, at(time.secs));
}

#[test]
fn truncation_drops_the_part_of_a_second() {
    let time = Timestamp { secs: 12, nanos: 999_999_999 };
    assert_eq!(truncate_to_seconds(time), Ok(at(12)));
    assert_eq!(truncate_to_seconds(at(12)), Ok(at(12)));
    assert_eq!(truncate_to_seconds(EPOCH), Ok(EPOCH));
}

#[test]
fn truncation_fails_before_the_epoch() {
    let time = Timestamp { secs: -1, nanos: 999_999_999 };
    assert_eq!(truncate_to_seconds(time), Err(BeforeEpoch));
    assert_eq!(BeforeEpoch.message(), "SystemTime before UNIX EPOCH");
}

#[test]
fn time_compares_by_second_then_nanosecond() {
    let time = Timestamp { secs: 5, nanos: 7 };
    assert_eq!(time.compare(Timestamp { secs: 6, nanos: 0 }), Comparison::Less);
    assert_eq!(time.compare(Timestamp { secs: 4, nanos: 9 }), Comparison::Greater);
    assert_eq!(time.compare(Timestamp { secs: 5, nanos: 8 }), Comparison::Less);
    assert_eq!(time.compare(Timestamp { secs: 5, nanos: 6 }), Comparison::Greater);
    assert_eq!(time.compare(time), Comparison::Equal);
}

#[test]
fn content_hash_is_that_of_the_description() {
    assert_eq!(file("a", Some("h"), EPOCH).content_hash(), Some("h"));
    assert_eq!(file("a", None, EPOCH).content_hash(), None);
    assert_eq!(env("A", Some("h")).content_hash(), Some("h"));
    assert_eq!(env("A", None).content_hash(), None);
}

#[test]
fn identifiers_ignore_contents() {
    let a = file("x/y", Some("h"), EPOCH).identifier();
    assert_eq!(a, file("x//y", None, at(3)).identifier());
    assert_ne!(a, file("x/z", Some("h"), EPOCH).identifier());
    assert_ne!(a, InputIdentifier::Env("x/y".to_string()));
    assert_eq!(env("A", None).identifier(), InputIdentifier::Env("A".to_string()));
    assert_eq!(a.clone(), a);
}

#[test]
fn input_hash_is_that_of_the_digests_in_a_row() {
    let inputs = vec![
        file("a", Some("1"), EPOCH),
        file("b", None, EPOCH),
        env("A", Some("2")),
        env("B", None),
    ];
    assert_eq!(Input::hash_source(&inputs), "12");
    assert_eq!(Input::compute_input_hash(&inputs, &digest), "<12>");
    assert_eq!(Input::compute_input_hash(&[], &digest), "<>");
}

#[test]
fn partition_keeps_the_order() {
    let inputs = vec![
        env("B", None),
        file("b", None, EPOCH),
        env("A", Some("2")),
        file("a", Some("1"), EPOCH),
    ];
    let (files, envs) = Input::partition_refs(&inputs);
    let files: Vec<String> = files.iter().map(|f| f.path.display()).collect();
    let envs: Vec<String> = envs.iter().map(|e| e.name.clone()).collect();
    assert_eq!(files, vec!["b", "a"]);
    assert_eq!(envs, vec!["B", "A"]);
}

#[test]
fn dedup_tells_contents_apart() {
    let dir = Input::File(FileInputDesc {
        path: FilePath::from_text("a"),
        is_directory: true,
        content_hash: Some("h".to_string()),
        modified_at: EPOCH,
    });
    let same = |a: &Input, b: &Input| Input::dedup(&mut a.clone(), &mut b.clone());
    assert!(same(&file("a", Some("h"), EPOCH), &file("a/", Some("h"), at(9))));
    assert!(!same(&file("a", Some("h"), EPOCH), &file("a", Some("g"), EPOCH)));
    assert!(!same(&file("a", Some("h"), EPOCH), &file("a", None, EPOCH)));
    assert!(!same(&file("a", Some("h"), EPOCH), &file("b", Some("h"), EPOCH)));
    assert!(!same(&file("a", Some("h"), EPOCH), &dir));
    assert!(same(&env("A", Some("h")), &env("A", Some("h"))));
    assert!(!same(&env("A", Some("h")), &env("A", None)));
    assert!(!same(&env("a", Some("h")), &file("a", Some("h"), EPOCH)));
    assert!(dir.has_contents_of(&dir));
}

#[test]
fn files_come_before_variables_and_recent_ones_first() {
    assert_eq!(file("z", None, EPOCH).compare(&env("A", None)), Comparison::Less);
    assert_eq!(env("A", None).compare(&file("z", None, EPOCH)), Comparison::Greater);
    assert_eq!(file("a", None, at(2)).compare(&file("a", None, at(1))), Comparison::Less);
    assert_eq!(file("a", None, at(1)).compare(&file("b", None, at(2))), Comparison::Less);
    assert_eq!(env("A", None).compare(&env("A", Some("h"))), Comparison::Equal);
    assert!(file("a", None, at(2)) < file("a", None, at(1)));
    assert!(env("B", None) > env("A", None));
}

#[test]
fn equality_looks_at_everything() {
    assert_eq!(file("a", Some("h"), at(1)), file("a/.", Some("h"), at(1)));
    assert_ne!(file("a", Some("h"), at(1)), file("a", Some("h"), at(2)));
    assert_ne!(env("A", None), env("A", Some("h")));
    assert_ne!(env("a", None), file("a", None, EPOCH));
}

#[test]
fn sorting_is_stable() {
    let mut inputs = vec![
        env("B", Some("1")),
        file("b", Some("1"), at(1)),
        env("A", Some("1")),
        file("a", Some("1"), at(1)),
        env("B", Some("2")),
        file("a", Some("2"), at(3)),
        file("a", Some("3"), at(1)),
        env("A", Some("0")),
    ];
    sort_inputs(&mut inputs);
    assert_eq!(
        all_spelled(&inputs),
        vec!["a@3=2", "a@1=1", "a@1=3", "b@1=1", "A=1", "A=0", "B=1", "B=2"]
    );
}

#[test]
fn sorting_many_inputs_agrees_with_the_standard_library() {
    let mut inputs: Vec<Input> = Vec::new();
    let mut seed: u64 = 7;
    for i in 0..300 {
        seed = seed.wrapping_mul(6364136223846793005).wrapping_add(1442695040888963407);
        let n = (seed >> 33) % 20;
        let digest = format!("{i}");
        if seed % 3 == 0 {
            inputs.push(env(&format!("V{n}"), Some(&digest)));
        } else {
            inputs.push(file(&format!("/d/{n}"), Some(&digest), at((seed >> 40) as i64 % 4)));
        }
    }
    let mut expected = inputs.clone();
    expected.sort_by(|a, b| a.compare(b).into_std());
    sort_inputs(&mut inputs);
    assert_eq!(all_spelled(&inputs), all_spelled(&expected));
}

#[test]
fn dropping_repetitions_agrees_with_the_standard_library() {
    let inputs = vec![
        file("a", Some("1"), at(3)),
        file("a", Some("1"), at(2)),
        file("a", Some("2"), at(1)),
        file("a", Some("1"), at(0)),
        file("b", None, at(0)),
        file("b", None, at(0)),
        env("A", None),
        env("A", None),
        env("A", Some("1")),
    ];
    let mut expected = inputs.clone();
    expected.dedup_by(Input::dedup);
    let mut dropped = inputs;
    dedup_inputs(&mut dropped);
    assert_eq!(all_spelled(&dropped), all_spelled(&expected));
    assert_eq!(
        all_spelled(&dropped),
        vec!["a@3=1", "a@1=2", "a@0=1", "b@0=", "A=", "A=1"]
    );
}

#[test]
fn normal_form_is_stable_and_keeps_the_most_recent() {
    let mut inputs = vec![
        file("a", Some("1"), at(1)),
        env("A", Some("1")),
        file("b", Some("2"), at(5)),
        file("a", Some("1"), at(4)),
        env("A", Some("1")),
        file("b", Some("2"), at(2)),
    ];
    normalise(&mut inputs);
    let once = all_spelled(&inputs);
    assert_eq!(once, vec!["a@4=1", "b@5=2", "A=1"]);
    normalise(&mut inputs);
    assert_eq!(all_spelled(&inputs), once);
}

#[test]
fn a_file_with_two_contents_is_kept_from_the_most_recent_on() {
    let mut inputs = vec![
        file("a", Some("1"), at(1)),
        file("a", Some("2"), at(4)),
        file("a", Some("1"), at(2)),
    ];
    normalise(&mut inputs);
    assert_eq!(all_spelled(&inputs), vec!["a@4=2", "a@2=1"]);
}

#[test]
fn normalising_nothing_gives_nothing() {
    let mut inputs: Vec<Input> = Vec::new();
    normalise(&mut inputs);
    assert!(inputs.is_empty());
}

#[test]
fn rows_become_inputs() {
    let files = vec![
        FileInputRow {
            path: FilePath::from_text("/a"),
            is_directory: true,
            content_hash: "h".to_string(),
            modified_at: at(4),
            updated_at: at(8),
        },
        FileInputRow {
            path: FilePath::from_text("/b"),
            is_directory: false,
            content_hash: String::new(),
            modified_at: at(5),
            updated_at: at(9),
        },
    ];
    let envs = vec![
        EnvInputRow { name: "A".to_string(), content_hash: "g".to_string() },
        EnvInputRow { name: "B".to_string(), content_hash: String::new() },
    ];
    let inputs = read_rows(files, envs);
    assert_eq!(all_spelled(&inputs), vec!["/a@4=h", "/b@5=", "A=g", "B="]);
    assert_eq!(inputs[1].content_hash(), None);
    assert_eq!(inputs[3].content_hash(), None);
    assert!(matches!(&inputs[0], Input::File(file) if file.is_directory));
    assert!(matches!(&inputs[1], Input::File(file) if !file.is_directory));
}

#[test]
fn a_row_converts_by_itself() {
    let row = EnvInputRow { name: "A".to_string(), content_hash: "g".to_string() };
    assert_eq!(Input::from(row), env("A", Some("g")));
    let row = FileInputRow {
        path: FilePath::from_text("/a"),
        is_directory: false,
        content_hash: String::new(),
        modified_at: at(4),
        updated_at: at(8),
    };
    assert_eq!(Input::from(row), file("/a", None, at(4)));
}

#[test]
fn digests_compare_and_copy() {
    let some = |text: &str| Some(text.to_string());
    assert!(same_digest(&some("a"), &some("a")));
    assert!(!same_digest(&some("a"), &some("b")));
    assert!(!same_digest(&some("a"), &None));
    assert!(same_digest(&None, &None));
    assert_eq!(copy_digest(&some("a")), some("a"));
    assert_eq!(copy_digest(&None), None);
    assert_eq!(digest_of("a", &digest), "<a>");
}
