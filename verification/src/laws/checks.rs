//! What holds of an input that is described and then checked.
use crate::digest;
use crate::input::{self, EnvInputView, FileInputDesc, FileInputView, InputView};
use crate::query::{self, Change, Checked};
use crate::state::{
    self, EnvLookup, FileMetadata, FileState, FileStateView, InputError, PathContents,
};
use crate::time::Timestamp;
use vstd::prelude::*;

verus! {

/// A file that was not modified since the second of its description is found
/// unchanged, whatever it holds.
pub proof fn untouched_files_are_unchanged<H: Fn(&str) -> String>(
    hash: H,
    path: Seq<u8>,
    contents: PathContents,
    time: Timestamp,
    desc: FileInputDesc,
    now: FileMetadata,
)
    requires
        state::file_described(hash, path, contents, time, Ok(desc)),
        now.modified_at matches Ok(later) && later.whole_second() == time.whole_second(),
    ensures
        state::state_by_metadata(desc@, Some(now)) == Ok::<Option<FileStateView>, InputError>(
            Some(FileStateView::Unchanged),
        ),
{
}

/// A file that was modified later and holds what it held is found to differ in its
/// metadata only.
pub proof fn touched_files_keep_their_contents<H: Fn(&str) -> String>(
    hash: H,
    digest: spec_fn(Seq<char>) -> Seq<char>,
    path: Seq<u8>,
    contents: PathContents,
    time: Timestamp,
    desc: FileInputDesc,
    modified_at: Timestamp,
    result: Result<FileState, InputError>,
)
    requires
        digest::computes(hash, digest),
        state::file_described(hash, path, contents, time, Ok(desc)),
        desc@.content_hash is Some,
        state::contents_checked(hash, desc@, modified_at, contents, result),
    ensures
        result matches Ok(state) && state@ == (FileStateView::MetadataModified { modified_at }),
{
    let new_hash = choose|new_hash: Seq<char>|
        {
            &&& #[trigger] state::digest_stands_for(hash, contents, Some(new_hash))
            &&& result->Ok_0@ == state::state_by_contents(desc@, modified_at, new_hash)
        };
    if let PathContents::Directory { entries } = contents {
        let listing = state::listing(entries@);
        digest::hashes_to_digest(hash, digest, listing, new_hash);
        digest::hashes_to_digest(hash, digest, listing, desc@.content_hash.unwrap());
    }
}

/// A file that was modified later and whose contents have another digest is found
/// modified.
pub proof fn other_contents_are_modified<H: Fn(&str) -> String>(
    hash: H,
    file: FileInputView,
    modified_at: Timestamp,
    contents: PathContents,
    result: Result<FileState, InputError>,
)
    requires
        state::contents_checked(hash, file, modified_at, contents, result),
        result is Ok,
        !state::digest_stands_for(hash, contents, file.content_hash),
    ensures
        result matches Ok(state) && state@ matches FileStateView::Modified {
            new_hash,
            modified_at: at,
        } && at == modified_at && state::digest_stands_for(hash, contents, Some(new_hash)),
{
}

/// A path that could not be read when it was described is found unchanged while
/// there is nothing, and one that could be read is found removed.
pub proof fn vanished_files_are_removed<H: Fn(&str) -> String>(
    hash: H,
    path: Seq<u8>,
    contents: PathContents,
    time: Timestamp,
    desc: FileInputDesc,
)
    requires
        state::file_described(hash, path, contents, time, Ok(desc)),
    ensures
        state::state_by_metadata(desc@, None) == Ok::<Option<FileStateView>, InputError>(
            Some(
                if contents matches PathContents::File { content_hash: Err(_) } {
                    FileStateView::Unchanged
                } else {
                    FileStateView::Removed
                },
            ),
        ),
{
}

/// Two descriptions of a path that does not exist are the same input with the same
/// contents, so that only one of them stays in a list. If they were made with
/// fallback times in one second, they are equal.
pub proof fn missing_paths_are_described_once<H: Fn(&str) -> String>(
    hash: H,
    path: Seq<u8>,
    missing: PathContents,
    also_missing: PathContents,
    first_time: Timestamp,
    second_time: Timestamp,
    a: FileInputDesc,
    b: FileInputDesc,
)
    requires
        missing matches PathContents::File { content_hash: Err(_) },
        also_missing matches PathContents::File { content_hash: Err(_) },
        state::file_described(hash, path, missing, state::time_or(None, first_time), Ok(a)),
        state::file_described(hash, path, also_missing, state::time_or(None, second_time), Ok(b)),
    ensures
        input::same_contents(InputView::File(a@), InputView::File(b@)),
        first_time.whole_second() == second_time.whole_second() ==> a@ == b@ && input::equal_files(
            a@,
            b@,
        ),
{
}

/// A described file bears a whole second, the one in which it was modified.
pub proof fn descriptions_have_second_precision<H: Fn(&str) -> String>(
    hash: H,
    path: Seq<u8>,
    contents: PathContents,
    time: Timestamp,
    desc: FileInputDesc,
)
    requires
        state::file_described(hash, path, contents, time, Ok(desc)),
    ensures
        desc@.modified_at.nanos == 0,
        desc@.modified_at.secs == time.secs,
{
}

/// A variable that has the value with which it was described, or still has none, is
/// found unchanged.
pub proof fn untouched_variables_are_unchanged<H: Fn(&str) -> String>(
    hash: H,
    digest: spec_fn(Seq<char>) -> Seq<char>,
    name: Seq<char>,
    value: EnvLookup,
    env: EnvInputView,
    now: Timestamp,
    result: Result<FileState, InputError>,
)
    requires
        digest::computes(hash, digest),
        !(value is NotUnicode),
        state::env_described(hash, name, value, env),
        state::env_checked(hash, env, value, now, result),
    ensures
        result matches Ok(state) && state@ == FileStateView::Unchanged,
{
    if value is Present {
        let new_hash = choose|new_hash: Seq<char>|
            {
                &&& #[trigger] digest::hashes_to(hash, state::value_text(value), new_hash)
                &&& state::agrees(result, state::state_by_value(env, new_hash, now))
            };
        digest::hashes_to_digest(hash, digest, state::value_text(value), new_hash);
        digest::hashes_to_digest(hash, digest, state::value_text(value), env.content_hash.unwrap());
    }
}

/// A variable that had a value when it was described and has none now is found
/// removed.
pub proof fn vanished_variables_are_removed<H: Fn(&str) -> String>(
    hash: H,
    name: Seq<char>,
    value: EnvLookup,
    env: EnvInputView,
    now: Timestamp,
    result: Result<FileState, InputError>,
)
    requires
        value is Present,
        state::env_described(hash, name, value, env),
        state::env_checked(hash, env, EnvLookup::NotPresent, now, result),
    ensures
        result matches Ok(state) && state@ == FileStateView::Removed,
{
}

/// What checking a file tells of its state, by metadata and, where that does not
/// tell, by contents.
pub open spec fn file_checked<H: Fn(&str) -> String>(
    hash: H,
    file: FileInputView,
    metadata: Option<FileMetadata>,
    contents: PathContents,
    state: Option<FileStateView>,
) -> bool {
    match state::state_by_metadata(file, metadata) {
        Err(_) => state is None,
        Ok(Some(decided)) => state == Some(decided),
        Ok(None) => exists|result: Result<FileState, InputError>|
            {
                &&& #[trigger] state::contents_checked(
                    hash,
                    file,
                    metadata.unwrap().modified_at.unwrap().whole_second(),
                    contents,
                    result,
                )
                &&& state == query::told(result)
            },
    }
}

/// The file is there as it was described, whenever it was modified, or is still
/// missing.
pub open spec fn holds_what_it_held<H: Fn(&str) -> String>(
    hash: H,
    file: FileInputView,
    metadata: Option<FileMetadata>,
    contents: PathContents,
) -> bool {
    match metadata {
        None => file.content_hash is None,
        Some(now) => {
            &&& file.is_directory ==> now.is_directory
            &&& state::digest_stands_for(hash, contents, file.content_hash)
        },
    }
}

/// A file that holds what it held does not rule a cached output out.
pub proof fn unmodified_files_do_not_rule_out<H: Fn(&str) -> String>(
    hash: H,
    digest: spec_fn(Seq<char>) -> Seq<char>,
    file: FileInputView,
    metadata: Option<FileMetadata>,
    contents: PathContents,
    state: Option<FileStateView>,
)
    requires
        digest::computes(hash, digest),
        holds_what_it_held(hash, file, metadata, contents),
        file_checked(hash, file, metadata, contents, state),
    ensures
        !query::is_changed(Checked { input: InputView::File(file), state }, Change::Modified),
        !query::is_changed(Checked { input: InputView::File(file), state }, Change::Removed),
{
    if state::state_by_metadata(file, metadata) == Ok::<Option<FileStateView>, InputError>(None) {
        let modified_at = metadata.unwrap().modified_at.unwrap().whole_second();
        let result = choose|result: Result<FileState, InputError>|
            {
                &&& #[trigger] state::contents_checked(hash, file, modified_at, contents, result)
                &&& state == query::told(result)
            };
        if result is Ok {
            let new_hash = choose|new_hash: Seq<char>|
                {
                    &&& #[trigger] state::digest_stands_for(hash, contents, Some(new_hash))
                    &&& result->Ok_0@ == state::state_by_contents(file, modified_at, new_hash)
                };
            if let PathContents::Directory { entries } = contents {
                let listing = state::listing(entries@);
                digest::hashes_to_digest(hash, digest, listing, new_hash);
                digest::hashes_to_digest(hash, digest, listing, file.content_hash.unwrap());
            }
        }
    }
}

/// A variable that has the value with which it was described, or still has none,
/// does not rule a cached output out.
pub proof fn unmodified_variables_do_not_rule_out<H: Fn(&str) -> String>(
    hash: H,
    digest: spec_fn(Seq<char>) -> Seq<char>,
    name: Seq<char>,
    value: EnvLookup,
    env: EnvInputView,
    now: Timestamp,
    result: Result<FileState, InputError>,
)
    requires
        digest::computes(hash, digest),
        !(value is NotUnicode),
        state::env_described(hash, name, value, env),
        state::env_checked(hash, env, value, now, result),
    ensures
        ({
            let found = Checked { input: InputView::Env(env), state: query::told(result) };
            !query::is_changed(found, Change::Modified) && !query::is_changed(
                found,
                Change::Removed,
            )
        }),
{
    untouched_variables_are_unchanged(hash, digest, name, value, env, now, result);
}

} // verus!
