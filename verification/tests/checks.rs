use devenv_eval_cache::input::{EnvInputDesc, FileInputDesc};
use devenv_eval_cache::path::FilePath;
use devenv_eval_cache::row::FileInputRow;
use devenv_eval_cache::state::{
    check_env_state, check_file_contents, check_file_state, EnvLookup, FileCheck, FileMetadata,
    FileState, InputError, PathContents,
};
use devenv_eval_cache::time::{truncate_to_seconds, Timestamp};

fn digest(text: &str) -> String {
    format!("<{text}>")
}

fn at(secs: i64) -> Timestamp {
    Timestamp { secs, nanos: 0 }
}

fn modified(secs: i64) -> Option<FileMetadata> {
    Some(FileMetadata {
        modified_at: Ok(Timestamp { secs, nanos: 250 }),
        is_directory: false,
    })
}

fn contents(text: &str) -> PathContents {
    PathContents::File { content_hash: Ok(digest(text)) }
}

fn unread() -> PathContents {
    PathContents::File { content_hash: Err("no such file".to_string()) }
}

fn unlisted() -> PathContents {
    PathContents::UnreadableDirectory { error: "permission denied".to_string() }
}

fn modified_directory(secs: i64) -> Option<FileMetadata> {
    Some(FileMetadata { modified_at: Ok(at(secs)), is_directory: true })
}

/// Checks a file the way a caller does: by metadata, and by contents if need be.
fn check(
    file: &FileInputDesc,
    metadata: Option<FileMetadata>,
    contents: PathContents,
) -> Result<FileState, InputError> {
    match check_file_state(file, metadata)? {
        FileCheck::Decided(state) => Ok(state),
        FileCheck::ReadContents { modified_at, .. } => {
            check_file_contents(file, modified_at, contents, &digest)
        }
    }
}

fn create_file_row(content: &str) -> FileInputRow {
    let truncated_modified_at = truncate_to_seconds(Timestamp { secs: 100, nanos: 5 }).unwrap();
    FileInputRow {
        path: FilePath::from_text("/tmp/test_file.txt"),
        is_directory: false,
        content_hash: digest(content),
        modified_at: truncated_modified_at,
        updated_at: truncated_modified_at,
    }
}

#[test]
fn test_unchanged_file() {
    let file_row = create_file_row("Hello, World!");

    assert!(matches!(
        check(&file_row.into(), modified(100), contents("Hello, World!")),
        Ok(FileState::Unchanged)
    ));
}

#[test]
fn test_metadata_modified_file() {
    let file_row = create_file_row("Hello, World!");

    // Update the file's timestamp to ensure it's different
    assert!(matches!(
        check(&file_row.into(), modified(101), contents("Hello, World!")),
        Ok(FileState::MetadataModified { .. })
    ));
}

#[test]
fn test_content_modified_file() {
    let file_row = create_file_row("Hello, World!");

    // Modify the file contents, and set mtime to ensure it's different from original
    assert!(matches!(
        check(&file_row.into(), modified(101), contents("Modified content")),
        Ok(FileState::Modified { .. })
    ));
}

#[test]
fn test_removed_file() {
    let file_row = create_file_row("Hello, World!");

    // Remove the file
    assert!(matches!(
        check(&file_row.into(), None, unread()),
        Ok(FileState::Removed)
    ));
}

fn described(path: &str, contents: PathContents, modified_at: Option<Timestamp>) -> FileInputDesc {
    FileInputDesc::new(FilePath::from_text(path), contents, modified_at, at(7), &digest).unwrap()
}

#[test]
fn a_file_is_described_to_the_second() {
    let desc = described("/a", contents("x"), Some(Timestamp { secs: 3, nanos: 999 }));
    assert_eq!(desc.path, FilePath::from_text("/a"));
    assert!(!desc.is_directory);
    assert_eq!(desc.content_hash, Some("<x>".to_string()));
    assert_eq!(desc.modified_at, at(3));
}

#[test]
fn a_directory_is_described_by_its_entries() {
    let entries = vec![FilePath::from_text("/d/b"), FilePath::from_text("/d/a")];
    let desc = described("/d", PathContents::Directory { entries }, Some(at(3)));
    assert!(desc.is_directory);
    assert_eq!(desc.content_hash, Some("</d/b/d/a>".to_string()));
}

#[test]
fn an_entry_that_is_not_text_is_read_as_far_as_it_is() {
    let entries = vec![FilePath::new(vec![0x2f, 0xff])];
    let desc = described("/d", PathContents::Directory { entries }, Some(at(3)));
    assert_eq!(desc.content_hash, Some("</\u{fffd}>".to_string()));
}

#[test]
fn missing_paths_are_described_alike() {
    let a = described("/gone", unread(), None);
    let b = described("/gone", unread(), None);
    assert_eq!(a, b);
    assert_eq!(a.modified_at, at(7));
    assert_eq!(a.content_hash, None);

    let later = Timestamp { secs: 7, nanos: 600 };
    let path = FilePath::from_text("/gone");
    let c = FileInputDesc::new(path, unread(), None, later, &digest).unwrap();
    assert_eq!(a, c);
}

#[test]
fn a_directory_that_cannot_be_listed_is_an_error() {
    let path = FilePath::from_text("/d");
    let result = FileInputDesc::new(path, unlisted(), None, at(-7), &digest);
    match result {
        Err(error) => {
            assert!(matches!(error, InputError::UnreadableDirectory { .. }));
            assert_eq!(error.message(), "permission denied");
        }
        Ok(desc) => panic!("unexpected description: {desc:?}"),
    }
}

#[test]
fn a_time_before_the_epoch_is_an_error() {
    let early = Some(at(-1));
    let path = FilePath::from_text("/a");
    let result = FileInputDesc::new(path, contents("x"), early, at(7), &digest);
    assert!(matches!(result, Err(InputError::BeforeEpoch)));
    let path = FilePath::from_text("/a");
    let result = FileInputDesc::new(path, contents("x"), None, at(-1), &digest);
    assert!(matches!(result, Err(InputError::BeforeEpoch)));
}

#[test]
fn a_missing_path_stays_unchanged_while_it_is_missing() {
    let desc = described("/gone", unread(), None);
    let state = check(&desc, None, unread());
    assert!(matches!(state, Ok(FileState::Unchanged)));
}

#[test]
fn a_missing_path_that_appears_is_modified() {
    let desc = described("/gone", unread(), None);
    match check(&desc, modified(50), contents("new")) {
        Ok(FileState::Modified { new_hash, modified_at }) => {
            assert_eq!(new_hash, "<new>");
            assert_eq!(modified_at, at(50));
        }
        other => panic!("unexpected state: {other:?}"),
    }
}

#[test]
fn a_touched_file_bears_the_new_time() {
    let desc = described("/a", contents("x"), Some(at(3)));
    match check(&desc, modified(9), contents("x")) {
        Ok(FileState::MetadataModified { modified_at }) => assert_eq!(modified_at, at(9)),
        other => panic!("unexpected state: {other:?}"),
    }
}

#[test]
fn a_modification_within_the_second_goes_unseen() {
    let desc = described("/a", contents("x"), Some(at(3)));
    assert!(matches!(check(&desc, modified(3), contents("y")), Ok(FileState::Unchanged)));
}

#[test]
fn a_directory_that_became_a_file_is_removed() {
    let desc = described("/d", PathContents::Directory { entries: vec![] }, Some(at(3)));
    assert!(matches!(check(&desc, modified(9), contents("x")), Ok(FileState::Removed)));
}

#[test]
fn how_to_read_a_file_is_how_it_was_read() {
    let dir = described("/d", PathContents::Directory { entries: vec![] }, Some(at(3)));
    assert!(matches!(
        check_file_state(&dir, modified_directory(9)),
        Ok(FileCheck::ReadContents { as_directory: true, .. })
    ));
    let file = described("/d", contents("x"), Some(at(3)));
    assert!(matches!(
        check_file_state(&file, modified_directory(9)),
        Ok(FileCheck::ReadContents { as_directory: false, .. })
    ));
}

#[test]
fn a_directory_with_other_entries_is_modified() {
    let entries = vec![FilePath::from_text("/d/a")];
    let desc = described("/d", PathContents::Directory { entries }, Some(at(3)));
    let same = PathContents::Directory { entries: vec![FilePath::from_text("/d/a")] };
    assert!(matches!(check(&desc, modified_directory(9), same), Ok(FileState::MetadataModified { .. })));
    let other = PathContents::Directory { entries: vec![FilePath::from_text("/d/b")] };
    assert!(matches!(check(&desc, modified_directory(9), other), Ok(FileState::Modified { .. })));
}

#[test]
fn what_cannot_be_checked_is_an_error() {
    let desc = described("/a", contents("x"), Some(at(3)));
    let untimed = Some(FileMetadata {
        modified_at: Err("not supported".to_string()),
        is_directory: false,
    });

    let error = check(&desc, untimed, contents("x")).unwrap_err();
    assert!(matches!(error, InputError::NoModificationTime { .. }));
    assert_eq!(error.message(), "not supported");

    let error = check(&desc, modified(-1), contents("x")).unwrap_err();
    assert!(matches!(error, InputError::BeforeEpoch));
    assert_eq!(error.message(), "SystemTime before UNIX EPOCH");

    let error = check(&desc, modified(9), unread()).unwrap_err();
    assert!(matches!(error, InputError::UnreadableFile { .. }));
    assert_eq!(error.message(), "Failed to compute file hash: no such file");

    let error = check(&desc, modified(9), unlisted()).unwrap_err();
    assert!(matches!(error, InputError::UnreadableDirectory { .. }));
    assert_eq!(error.message(), "permission denied");
}

fn variable(value: EnvLookup) -> EnvInputDesc {
    EnvInputDesc::new("NAME".to_string(), value, &digest)
}

fn present(value: &str) -> EnvLookup {
    EnvLookup::Present(value.to_string())
}

#[test]
fn a_variable_is_described_by_its_value() {
    assert_eq!(variable(present("v")).content_hash, Some("<v>".to_string()));
    assert_eq!(variable(present("v")).name, "NAME");
    assert_eq!(variable(EnvLookup::NotPresent).content_hash, None);
    assert_eq!(variable(EnvLookup::NotUnicode).content_hash, None);
}

#[test]
fn an_untouched_variable_is_unchanged() {
    let state = check_env_state(&variable(present("v")), present("v"), at(9), &digest);
    assert!(matches!(state, Ok(FileState::Unchanged)));
    let absent = variable(EnvLookup::NotPresent);
    let state = check_env_state(&absent, EnvLookup::NotPresent, at(9), &digest);
    assert!(matches!(state, Ok(FileState::Unchanged)));
}

#[test]
fn another_value_is_a_modification() {
    let now = Timestamp { secs: 9, nanos: 4 };
    match check_env_state(&variable(present("v")), present("w"), now, &digest) {
        Ok(FileState::Modified { new_hash, modified_at }) => {
            assert_eq!(new_hash, "<w>");
            assert_eq!(modified_at, at(9));
        }
        other => panic!("unexpected state: {other:?}"),
    }
}

#[test]
fn a_vanished_variable_is_removed() {
    let state = check_env_state(&variable(present("v")), EnvLookup::NotPresent, at(9), &digest);
    assert!(matches!(state, Ok(FileState::Removed)));
}

#[test]
fn a_value_that_is_not_text_is_held_against_no_text() {
    let not_text = variable(EnvLookup::NotUnicode);
    let state = check_env_state(&not_text, EnvLookup::NotUnicode, at(9), &digest);
    assert!(matches!(state, Ok(FileState::Modified { new_hash, .. }) if new_hash == "<>"));
    let state = check_env_state(&variable(present("")), EnvLookup::NotUnicode, at(9), &digest);
    assert!(matches!(state, Ok(FileState::Unchanged)));
}

#[test]
fn a_modified_variable_needs_a_time_after_the_epoch() {
    let state = check_env_state(&variable(present("v")), present("w"), at(-1), &digest);
    assert!(matches!(state, Err(InputError::BeforeEpoch)));
}
