//! Inputs as the system shows them: how they are described, and how a
//! description is held against what the system shows later.
use crate::digest::{self, digest_of};
use crate::input::{EnvInputDesc, EnvInputView, FileInputDesc, FileInputView};
use crate::path::FilePath;
use crate::text;
use crate::time::{truncate_to_seconds, BeforeEpoch, Timestamp};
use vstd::prelude::*;
use vstd::string::*;

verus! {

/// What reading a path gave.
#[derive(Debug)]
pub enum PathContents {
    /// The paths of a directory's entries, in the order in which it lists them.
    Directory { entries: Vec<FilePath> },
    /// A directory whose entries could not be listed, with the error of the system.
    UnreadableDirectory { error: String },
    /// Anything else, with the digest of its contents, or the error of computing it.
    File { content_hash: Result<String, String> },
}

/// What the system says about a path that exists.
#[derive(Debug)]
pub struct FileMetadata {
    /// The time of modification, or the error of the system.
    pub modified_at: Result<Timestamp, String>,
    pub is_directory: bool,
}

/// What looking up an environment variable gave.
#[derive(Debug)]
pub enum EnvLookup {
    Present(String),
    NotPresent,
    /// There is a value, but it is not text.
    NotUnicode,
}

/// Why an input could not be described or checked.
#[derive(Debug)]
pub enum InputError {
    /// The entries of a directory could not be listed.
    UnreadableDirectory { error: String },
    /// The digest of a file's contents could not be computed.
    UnreadableFile { error: String },
    /// The system does not tell when the file was modified.
    NoModificationTime { error: String },
    /// The time of modification lies before 1970-01-01 00:00:00 UTC.
    BeforeEpoch,
}

impl InputError {
    /// The error in words: that of the system, of a file's digest with what failed.
    pub open spec fn text(self) -> Seq<char> {
        match self {
            InputError::UnreadableDirectory { error } => error@,
            InputError::UnreadableFile { error } => "Failed to compute file hash: "@ + error@,
            InputError::NoModificationTime { error } => error@,
            InputError::BeforeEpoch => "SystemTime before UNIX EPOCH"@,
        }
    }

    /// The error in words.
    pub fn message(&self) -> (result: String)
        ensures
            result@ == self.text(),
    {
        match self {
            InputError::UnreadableDirectory { error } => error.clone(),
            InputError::UnreadableFile { error } => {
                let mut result = "Failed to compute file hash: ".to_owned();
                result.append(error.as_str());
                result
            },
            InputError::NoModificationTime { error } => error.clone(),
            InputError::BeforeEpoch => BeforeEpoch.message(),
        }
    }
}

/// Represents the various states of "modified" that we care about.
#[derive(Debug)]
pub enum FileState {
    /// The file has not been modified since it was last cached.
    Unchanged,
    /// The file's metadata, i.e. timestamp, has changed, but its content remains the same.
    MetadataModified { modified_at: Timestamp },
    /// The file's contents have been modified.
    Modified { new_hash: String, modified_at: Timestamp },
    /// The file no longer exists in the file system.
    Removed,
}

/// The model of a [`FileState`].
#[verifier::ext_equal]
pub enum FileStateView {
    Unchanged,
    MetadataModified { modified_at: Timestamp },
    Modified { new_hash: Seq<char>, modified_at: Timestamp },
    Removed,
}

impl View for FileState {
    type V = FileStateView;

    open spec fn view(&self) -> FileStateView {
        match *self {
            FileState::Unchanged => FileStateView::Unchanged,
            FileState::MetadataModified { modified_at } => FileStateView::MetadataModified {
                modified_at,
            },
            FileState::Modified { new_hash, modified_at } => FileStateView::Modified {
                new_hash: new_hash@,
                modified_at,
            },
            FileState::Removed => FileStateView::Removed,
        }
    }
}

/// How far metadata alone tells the state of a file.
#[derive(Debug)]
pub enum FileCheck {
    /// It does.
    Decided(FileState),
    /// The file was modified at another time than before, which is given. Only its
    /// contents tell whether they changed. They are to be read as a directory's
    /// entries if the file was a directory before, and as a file's bytes if not.
    ReadContents { modified_at: Timestamp, as_directory: bool },
}

/// The paths of a directory's entries as text, in a row.
pub open spec fn listing(entries: Seq<FilePath>) -> Seq<char>
    decreases entries.len(),
{
    if entries.len() == 0 {
        Seq::empty()
    } else {
        listing(entries.drop_last()) + text::utf8_lossy(entries.last()@)
    }
}

/// The paths of a directory's entries as text, in a row.
pub fn list_entries(entries: &Vec<FilePath>) -> (result: String)
    ensures
        result@ == listing(entries@),
{
    let mut result = String::new();
    let mut i: usize = 0;
    while i < entries.len()
        invariant
            i <= entries@.len(),
            result@ == listing(entries@.take(i as int)),
        decreases entries@.len() - i,
    {
        assert(entries@.take(i + 1).drop_last() =~= entries@.take(i as int));
        result.append(entries[i].display().as_str());
        i += 1;
    }
    assert(entries@.take(i as int) =~= entries@);
    result
}

/// A digest stands for these contents: that of the listing of a directory, or the
/// one that came with a file.
pub open spec fn digest_stands_for<H: Fn(&str) -> String>(
    hash: H,
    contents: PathContents,
    content_hash: Option<Seq<char>>,
) -> bool {
    match contents {
        PathContents::Directory { entries } => content_hash matches Some(out)
            && digest::hashes_to(hash, listing(entries@), out),
        PathContents::UnreadableDirectory { .. } => false,
        PathContents::File { content_hash: Ok(of_file) } => content_hash == Some(of_file@),
        PathContents::File { content_hash: Err(_) } => content_hash is None,
    }
}

/// The time of modification, and `fallback` where there is none.
pub open spec fn time_or(modified_at: Option<Timestamp>, fallback: Timestamp) -> Timestamp {
    match modified_at {
        Some(time) => time,
        None => fallback,
    }
}

/// How a path is described by what reading it gave. A directory that cannot be
/// listed and a time before 1970-01-01 00:00:00 UTC are errors, the former first.
pub open spec fn file_described<H: Fn(&str) -> String>(
    hash: H,
    path: Seq<u8>,
    contents: PathContents,
    time: Timestamp,
    result: Result<FileInputDesc, InputError>,
) -> bool {
    if let PathContents::UnreadableDirectory { error } = contents {
        result == Err::<FileInputDesc, InputError>(InputError::UnreadableDirectory { error })
    } else if time.secs < 0 {
        result == Err::<FileInputDesc, InputError>(InputError::BeforeEpoch)
    } else {
        &&& result matches Ok(desc)
        &&& desc@.path == path
        &&& desc@.is_directory == (contents is Directory)
        &&& digest_stands_for(hash, contents, desc@.content_hash)
        &&& desc@.modified_at == time.whole_second()
    }
}

impl FileInputDesc {
    /// Describes a path by what reading it gave.
    ///
    /// A fallback time is required for paths that don't exist.
    /// This avoids duplicate entries for paths that don't exist and would only differ in terms of
    /// the timestamp of when this function was called.
    ///
    /// All timestamps are truncated to second precision.
    pub fn new<H: Fn(&str) -> String>(
        path: FilePath,
        contents: PathContents,
        modified_at: Option<Timestamp>,
        fallback_time: Timestamp,
        hash: &H,
    ) -> (result: Result<FileInputDesc, InputError>)
        requires
            digest::hashes_any_text(*hash),
        ensures
            file_described(*hash, path@, contents, time_or(modified_at, fallback_time), result),
    {
        let (is_directory, content_hash) = match contents {
            PathContents::Directory { entries } => (
                true,
                Some(digest_of(list_entries(&entries).as_str(), hash)),
            ),
            PathContents::UnreadableDirectory { error } => return Err(
                InputError::UnreadableDirectory { error },
            ),
            PathContents::File { content_hash: Ok(content_hash) } => (false, Some(content_hash)),
            PathContents::File { content_hash: Err(_) } => (false, None),
        };
        let time = match modified_at {
            Some(time) => time,
            None => fallback_time,
        };
        match truncate_to_seconds(time) {
            Ok(modified_at) => Ok(FileInputDesc { path, is_directory, content_hash, modified_at }),
            Err(_) => Err(InputError::BeforeEpoch),
        }
    }
}

/// The text that is hashed for a variable's value: that of the value, and none for
/// a value that is not text.
pub open spec fn value_text(value: EnvLookup) -> Seq<char> {
    match value {
        EnvLookup::Present(text) => text@,
        _ => Seq::empty(),
    }
}

/// How a variable is described by what looking it up gave: with the digest of its
/// value, and without one if there is no value or the value is not text.
pub open spec fn env_described<H: Fn(&str) -> String>(
    hash: H,
    name: Seq<char>,
    value: EnvLookup,
    env: EnvInputView,
) -> bool {
    &&& env.name == name
    &&& match env.content_hash {
        Some(out) => value is Present && digest::hashes_to(hash, value_text(value), out),
        None => !(value is Present),
    }
}

impl EnvInputDesc {
    /// Describes a variable by what looking it up gave. It has no digest if there is
    /// no value or the value is not text.
    pub fn new<H: Fn(&str) -> String>(name: String, value: EnvLookup, hash: &H) -> (result:
        EnvInputDesc)
        requires
            digest::hashes_any_text(*hash),
        ensures
            env_described(*hash, name@, value, result@),
    {
        let content_hash = match value {
            EnvLookup::Present(text) => Some(digest_of(text.as_str(), hash)),
            _ => None,
        };
        EnvInputDesc { name, content_hash }
    }
}

/// The state that metadata shows a file to be in, if it does: `None` where only
/// the contents tell.
pub open spec fn state_by_metadata(
    file: FileInputView,
    metadata: Option<FileMetadata>,
) -> Result<Option<FileStateView>, InputError> {
    match metadata {
        None => Ok(
            Some(
                if file.content_hash is Some {
                    FileStateView::Removed
                } else {
                    FileStateView::Unchanged
                },
            ),
        ),
        Some(now) => match now.modified_at {
            Err(error) => Err(InputError::NoModificationTime { error }),
            Ok(time) => if time.secs < 0 {
                Err(InputError::BeforeEpoch)
            } else if time.whole_second() == file.modified_at {
                Ok(Some(FileStateView::Unchanged))
            } else if file.is_directory && !now.is_directory {
                Ok(Some(FileStateView::Removed))
            } else {
                Ok(None)
            },
        },
    }
}

/// The state of a file that was modified at another time than before, by the
/// digest of what it holds now.
pub open spec fn state_by_contents(
    file: FileInputView,
    modified_at: Timestamp,
    new_hash: Seq<char>,
) -> FileStateView {
    if file.content_hash == Some(new_hash) {
        FileStateView::MetadataModified { modified_at }
    } else {
        FileStateView::Modified { new_hash, modified_at }
    }
}

/// Holds a file against its metadata, which is missing if the file is.
pub fn check_file_state(file: &FileInputDesc, metadata: Option<FileMetadata>) -> (result: Result<
    FileCheck,
    InputError,
>)
    ensures
        match (state_by_metadata(file@, metadata), result) {
            (Err(expected), Err(error)) => expected == error,
            (Ok(Some(expected)), Ok(FileCheck::Decided(state))) => expected == state@,
            (Ok(None), Ok(FileCheck::ReadContents { modified_at, as_directory })) => {
                &&& as_directory == file@.is_directory
                &&& metadata matches Some(now) && now.modified_at matches Ok(time) && modified_at
                    == time.whole_second()
            },
            _ => false,
        },
{
    let metadata = match metadata {
        Some(metadata) => metadata,
        None => {
            return if file.content_hash.is_some() {
                Ok(FileCheck::Decided(FileState::Removed))
            } else {
                Ok(FileCheck::Decided(FileState::Unchanged))
            };
        },
    };
    let modified_at = match metadata.modified_at {
        Ok(time) => match truncate_to_seconds(time) {
            Ok(modified_at) => modified_at,
            Err(_) => return Err(InputError::BeforeEpoch),
        },
        Err(error) => return Err(InputError::NoModificationTime { error }),
    };
    if modified_at == file.modified_at {
        // File has not been modified
        return Ok(FileCheck::Decided(FileState::Unchanged));
    }
    if file.is_directory && !metadata.is_directory {
        return Ok(FileCheck::Decided(FileState::Removed));
    }
    // mtime has changed, check if content has changed
    Ok(FileCheck::ReadContents { modified_at, as_directory: file.is_directory })
}

/// The state of a file by the digest of what it holds now.
pub fn compare_contents(file: &FileInputDesc, modified_at: Timestamp, new_hash: String) -> (result:
    FileState)
    ensures
        result@ == state_by_contents(file@, modified_at, new_hash@),
{
    let unchanged = match &file.content_hash {
        Some(content_hash) => *content_hash == new_hash,
        None => false,
    };
    if unchanged {
        // File touched but hash unchanged
        FileState::MetadataModified { modified_at }
    } else {
        // Hash has changed, return new hash
        FileState::Modified { new_hash, modified_at }
    }
}

/// The state of a file by what reading it gave, when it was modified at another
/// time than before. What cannot be read is an error.
pub open spec fn contents_checked<H: Fn(&str) -> String>(
    hash: H,
    file: FileInputView,
    modified_at: Timestamp,
    contents: PathContents,
    result: Result<FileState, InputError>,
) -> bool {
    match contents {
        PathContents::UnreadableDirectory { error } => result == Err::<FileState, InputError>(
            InputError::UnreadableDirectory { error },
        ),
        PathContents::File { content_hash: Err(error) } => result == Err::<FileState, InputError>(
            InputError::UnreadableFile { error },
        ),
        _ => result matches Ok(state) && exists|new_hash: Seq<char>|
            {
                &&& #[trigger] digest_stands_for(hash, contents, Some(new_hash))
                &&& state@ == state_by_contents(file, modified_at, new_hash)
            },
    }
}

/// Goes on with a check that needs the file's contents.
pub fn check_file_contents<H: Fn(&str) -> String>(
    file: &FileInputDesc,
    modified_at: Timestamp,
    contents: PathContents,
    hash: &H,
) -> (result: Result<FileState, InputError>)
    requires
        digest::hashes_any_text(*hash),
    ensures
        contents_checked(*hash, file@, modified_at, contents, result),
{
    let new_hash = match contents {
        PathContents::Directory { entries } => digest_of(list_entries(&entries).as_str(), hash),
        PathContents::UnreadableDirectory { error } => return Err(
            InputError::UnreadableDirectory { error },
        ),
        PathContents::File { content_hash: Ok(content_hash) } => content_hash,
        PathContents::File { content_hash: Err(error) } => return Err(
            InputError::UnreadableFile { error },
        ),
    };
    assert(digest_stands_for(*hash, contents, Some(new_hash@)));
    Ok(compare_contents(file, modified_at, new_hash))
}

/// The state of a variable that has a value, by the value's digest.
pub open spec fn state_by_value(
    env: EnvInputView,
    new_hash: Seq<char>,
    now: Timestamp,
) -> Result<FileStateView, InputError> {
    if env.content_hash == Some(new_hash) {
        Ok(FileStateView::Unchanged)
    } else if now.secs < 0 {
        Err(InputError::BeforeEpoch)
    } else {
        Ok(FileStateView::Modified { new_hash, modified_at: now.whole_second() })
    }
}

/// Two results agree, the first one by its model.
pub open spec fn agrees(
    result: Result<FileState, InputError>,
    expected: Result<FileStateView, InputError>,
) -> bool {
    match (result, expected) {
        (Ok(state), Ok(view)) => state@ == view,
        (Err(a), Err(b)) => a == b,
        _ => false,
    }
}

/// The state of a variable that has a value, by the value's digest.
pub fn compare_value(env: &EnvInputDesc, new_hash: String, now: Timestamp) -> (result: Result<
    FileState,
    InputError,
>)
    ensures
        agrees(result, state_by_value(env@, new_hash@, now)),
{
    let unchanged = match &env.content_hash {
        Some(content_hash) => *content_hash == new_hash,
        None => false,
    };
    if unchanged {
        Ok(FileState::Unchanged)
    } else {
        match truncate_to_seconds(now) {
            Ok(modified_at) => Ok(FileState::Modified { new_hash, modified_at }),
            Err(_) => Err(InputError::BeforeEpoch),
        }
    }
}

/// The state of a variable by what looking it up gave at time `now`.
pub open spec fn env_checked<H: Fn(&str) -> String>(
    hash: H,
    env: EnvInputView,
    value: EnvLookup,
    now: Timestamp,
    result: Result<FileState, InputError>,
) -> bool {
    if value is NotPresent {
        agrees(
            result,
            Ok(
                if env.content_hash is None {
                    FileStateView::Unchanged
                } else {
                    FileStateView::Removed
                },
            ),
        )
    } else {
        exists|new_hash: Seq<char>|
            {
                &&& #[trigger] digest::hashes_to(hash, value_text(value), new_hash)
                &&& agrees(result, state_by_value(env, new_hash, now))
            }
    }
}

/// Holds a variable against what looking it up gives at time `now`.
pub fn check_env_state<H: Fn(&str) -> String>(
    env: &EnvInputDesc,
    value: EnvLookup,
    now: Timestamp,
    hash: &H,
) -> (result: Result<FileState, InputError>)
    requires
        digest::hashes_any_text(*hash),
    ensures
        env_checked(*hash, env@, value, now, result),
{
    let new_hash = match value {
        EnvLookup::NotPresent => {
            return if env.content_hash.is_none() {
                Ok(FileState::Unchanged)
            } else {
                Ok(FileState::Removed)
            };
        },
        EnvLookup::Present(text) => digest_of(text.as_str(), hash),
        EnvLookup::NotUnicode => {
            proof {
                reveal_strlit("");
            }
            assert(""@ =~= Seq::<char>::empty());
            digest_of("", hash)
        },
    };
    assert(digest::hashes_to(*hash, value_text(value), new_hash@));
    compare_value(env, new_hash, now)
}

} // verus!
