//! In which state an input is found, and how it is described, in each case.
use crate::digest;
use crate::input::{EnvInputView, FileInputDesc, FileInputView};
use crate::laws::checks;
use crate::state::{
    self, EnvLookup, FileMetadata, FileState, FileStateView, InputError, PathContents,
};
use crate::time::Timestamp;
use vstd::prelude::*;

verus! {

/// A path is described by the digest of its contents, or of the listing of its
/// entries if it is a directory, and by the second in which it was modified.
pub proof fn paths_are_described_by_what_they_hold<H: Fn(&str) -> String>(
    hash: H,
    digest: spec_fn(Seq<char>) -> Seq<char>,
    path: Seq<u8>,
    contents: PathContents,
    time: Timestamp,
    desc: FileInputDesc,
)
    requires
        digest::computes(hash, digest),
        state::file_described(hash, path, contents, time, Ok(desc)),
    ensures
        desc.path.bytes@ == path,
        desc.is_directory <==> contents is Directory,
        desc.modified_at.secs == time.secs,
        desc.modified_at.nanos == 0,
        contents matches PathContents::Directory { entries } ==> desc.content_hash matches Some(
            text,
        ) && text@ == digest(state::listing(entries@)),
        contents matches PathContents::File { content_hash: Ok(found) } ==> desc.content_hash
            matches Some(text) && text@ == found@,
        contents matches PathContents::File { content_hash: Err(_) } ==> desc.content_hash is None,
{
    if let PathContents::Directory { entries } = contents {
        digest::hashes_to_digest(
            hash,
            digest,
            state::listing(entries@),
            desc@.content_hash.unwrap(),
        );
    }
}

/// Describing a path fails if and only if it is a directory that cannot be listed,
/// with the system's error, or was modified before the epoch. A path that the system
/// gives no time for bears the fallback time.
pub proof fn describing_fails_for_two_reasons<H: Fn(&str) -> String>(
    hash: H,
    path: Seq<u8>,
    contents: PathContents,
    modified_at: Option<Timestamp>,
    fallback_time: Timestamp,
    result: Result<FileInputDesc, InputError>,
)
    requires
        state::file_described(
            hash,
            path,
            contents,
            state::time_or(modified_at, fallback_time),
            result,
        ),
    ensures
        ({
            let secs = match modified_at {
                Some(time) => time.secs,
                None => fallback_time.secs,
            };
            &&& result is Err <==> contents is UnreadableDirectory || secs < 0
            &&& contents matches PathContents::UnreadableDirectory { error } ==> result == Err::<
                FileInputDesc,
                InputError,
            >(InputError::UnreadableDirectory { error })
            &&& !(contents is UnreadableDirectory) && secs < 0 ==> result == Err::<
                FileInputDesc,
                InputError,
            >(InputError::BeforeEpoch)
            &&& result matches Ok(desc) ==> desc.modified_at.secs == secs
        }),
{
}

/// A variable is described by the digest of its value if it has one that is text, and
/// without a digest if not.
pub proof fn variables_are_described_by_their_values<H: Fn(&str) -> String>(
    hash: H,
    digest: spec_fn(Seq<char>) -> Seq<char>,
    name: Seq<char>,
    value: EnvLookup,
    env: EnvInputView,
)
    requires
        digest::computes(hash, digest),
        state::env_described(hash, name, value, env),
    ensures
        env.name == name,
        value matches EnvLookup::Present(text) ==> env.content_hash == Some(digest(text@)),
        value is NotPresent ==> env.content_hash is None,
        value is NotUnicode ==> env.content_hash is None,
{
    if let EnvLookup::Present(text) = value {
        assert(state::value_text(value) == text@);
        digest::hashes_to_digest(hash, digest, text@, env.content_hash.unwrap());
    }
}

/// What metadata tells of a file: that it was removed or is still missing, that it was
/// not modified since the recorded second, that it is no directory any more, or that
/// only its contents tell. Without a time after the epoch it is an error.
pub proof fn metadata_tell_what_they_can(file: FileInputView, metadata: Option<FileMetadata>)
    ensures
        match metadata {
            None => {
                &&& file.content_hash is Some ==> state::state_by_metadata(file, metadata) == Ok::<
                    Option<FileStateView>,
                    InputError,
                >(Some(FileStateView::Removed))
                &&& file.content_hash is None ==> state::state_by_metadata(file, metadata) == Ok::<
                    Option<FileStateView>,
                    InputError,
                >(Some(FileStateView::Unchanged))
            },
            Some(now) => match now.modified_at {
                Err(error) => state::state_by_metadata(file, metadata) == Err::<
                    Option<FileStateView>,
                    InputError,
                >(InputError::NoModificationTime { error }),
                Ok(time) => {
                    let same = file.modified_at.secs == time.secs && file.modified_at.nanos == 0;
                    &&& time.secs < 0 ==> state::state_by_metadata(file, metadata) == Err::<
                        Option<FileStateView>,
                        InputError,
                    >(InputError::BeforeEpoch)
                    &&& time.secs >= 0 && same ==> state::state_by_metadata(file, metadata) == Ok::<
                        Option<FileStateView>,
                        InputError,
                    >(Some(FileStateView::Unchanged))
                    &&& time.secs >= 0 && !same && file.is_directory && !now.is_directory
                        ==> state::state_by_metadata(file, metadata) == Ok::<
                        Option<FileStateView>,
                        InputError,
                    >(Some(FileStateView::Removed))
                    &&& time.secs >= 0 && !same && (!file.is_directory || now.is_directory)
                        ==> state::state_by_metadata(file, metadata) == Ok::<
                        Option<FileStateView>,
                        InputError,
                    >(None)
                },
            },
        },
{
}

/// A file that was modified since is found only touched if its contents have the
/// recorded digest, and modified, with the new digest, if they have another one or
/// there was none. What cannot be read is an error.
pub proof fn contents_tell_touched_from_modified<H: Fn(&str) -> String>(
    hash: H,
    digest: spec_fn(Seq<char>) -> Seq<char>,
    file: FileInputView,
    modified_at: Timestamp,
    contents: PathContents,
    result: Result<FileState, InputError>,
)
    requires
        digest::computes(hash, digest),
        state::contents_checked(hash, file, modified_at, contents, result),
    ensures
        match contents {
            PathContents::UnreadableDirectory { error } => result == Err::<FileState, InputError>(
                InputError::UnreadableDirectory { error },
            ),
            PathContents::File { content_hash: Err(error) } => result == Err::<
                FileState,
                InputError,
            >(InputError::UnreadableFile { error }),
            PathContents::File { content_hash: Ok(found) } => {
                &&& file.content_hash == Some(found@) ==> result == Ok::<FileState, InputError>(
                    FileState::MetadataModified { modified_at },
                )
                &&& file.content_hash != Some(found@) ==> {
                    &&& result matches Ok(FileState::Modified { new_hash, modified_at: at })
                    &&& new_hash@ == found@
                    &&& at == modified_at
                }
            },
            PathContents::Directory { entries } => {
                let now = digest(state::listing(entries@));
                &&& file.content_hash == Some(now) ==> result == Ok::<FileState, InputError>(
                    FileState::MetadataModified { modified_at },
                )
                &&& file.content_hash != Some(now) ==> {
                    &&& result matches Ok(FileState::Modified { new_hash, modified_at: at })
                    &&& new_hash@ == now
                    &&& at == modified_at
                }
            },
        },
{
    let new_hash = choose|new_hash: Seq<char>|
        {
            &&& #[trigger] state::digest_stands_for(hash, contents, Some(new_hash))
            &&& result->Ok_0@ == state::state_by_contents(file, modified_at, new_hash)
        };
    if let PathContents::Directory { entries } = contents {
        digest::hashes_to_digest(hash, digest, state::listing(entries@), new_hash);
    }
    if let Ok(state) = result {
        match state {
            FileState::Unchanged => {},
            FileState::MetadataModified { modified_at: _ } => {},
            FileState::Modified { new_hash: _, modified_at: _ } => {},
            FileState::Removed => {},
        }
    }
}

/// A variable that has a text for its value is found unchanged if and only if it is
/// described with that text's digest. With any other digest or none it is found
/// modified, with the new digest and the second of the check, unless that lies before
/// the epoch, which is an error.
pub proof fn values_tell_unchanged_from_modified<H: Fn(&str) -> String>(
    hash: H,
    digest: spec_fn(Seq<char>) -> Seq<char>,
    env: EnvInputView,
    value: String,
    now: Timestamp,
    result: Result<FileState, InputError>,
)
    requires
        digest::computes(hash, digest),
        state::env_checked(hash, env, EnvLookup::Present(value), now, result),
    ensures
        env.content_hash == Some(digest(value@)) <==> result == Ok::<FileState, InputError>(
            FileState::Unchanged,
        ),
        env.content_hash != Some(digest(value@)) && now.secs >= 0 ==> {
            &&& result matches Ok(FileState::Modified { new_hash, modified_at })
            &&& new_hash@ == digest(value@)
            &&& modified_at.secs == now.secs
            &&& modified_at.nanos == 0
        },
        env.content_hash != Some(digest(value@)) && now.secs < 0 ==> result == Err::<
            FileState,
            InputError,
        >(InputError::BeforeEpoch),
{
    let looked_up = EnvLookup::Present(value);
    assert(state::value_text(looked_up) == value@);
    let new_hash = choose|new_hash: Seq<char>|
        {
            &&& #[trigger] digest::hashes_to(hash, state::value_text(looked_up), new_hash)
            &&& state::agrees(result, state::state_by_value(env, new_hash, now))
        };
    digest::hashes_to_digest(hash, digest, value@, new_hash);
}

/// A variable without a value is found unchanged if it had none and removed if it had
/// one. One whose value is not text is held against the empty text.
pub proof fn missing_values_are_told_apart<H: Fn(&str) -> String>(
    hash: H,
    digest: spec_fn(Seq<char>) -> Seq<char>,
    env: EnvInputView,
    value: EnvLookup,
    now: Timestamp,
    result: Result<FileState, InputError>,
)
    requires
        digest::computes(hash, digest),
        state::env_checked(hash, env, value, now, result),
    ensures
        value is NotPresent && env.content_hash is None ==> result == Ok::<FileState, InputError>(
            FileState::Unchanged,
        ),
        value is NotPresent && env.content_hash is Some ==> result == Ok::<FileState, InputError>(
            FileState::Removed,
        ),
        value is NotUnicode ==> (env.content_hash == Some(digest(Seq::empty())) <==> result == Ok::<
            FileState,
            InputError,
        >(FileState::Unchanged)),
        value is NotUnicode && env.content_hash != Some(digest(Seq::empty())) && now.secs >= 0 ==> {
            &&& result matches Ok(FileState::Modified { new_hash, modified_at })
            &&& new_hash@ == digest(Seq::empty())
            &&& modified_at.secs == now.secs
            &&& modified_at.nanos == 0
        },
        value is NotUnicode && env.content_hash != Some(digest(Seq::empty())) && now.secs < 0
            ==> result == Err::<FileState, InputError>(InputError::BeforeEpoch),
{
    if value is NotUnicode {
        let new_hash = choose|new_hash: Seq<char>|
            {
                &&& #[trigger] digest::hashes_to(hash, state::value_text(value), new_hash)
                &&& state::agrees(result, state::state_by_value(env, new_hash, now))
            };
        assert(state::value_text(value) =~= Seq::empty());
        digest::hashes_to_digest(hash, digest, Seq::empty(), new_hash);
    }
}

/// What holds of a check given a digest that was computed already.
pub proof fn computed_digests_decide_alike(
    file: FileInputView,
    env: EnvInputView,
    new_hash: Seq<char>,
    time: Timestamp,
    state: FileState,
    error: InputError,
)
    ensures
        file.content_hash == Some(new_hash) ==> state::state_by_contents(file, time, new_hash) == (
        FileStateView::MetadataModified { modified_at: time }),
        file.content_hash != Some(new_hash) ==> state::state_by_contents(file, time, new_hash) == (
        FileStateView::Modified { new_hash, modified_at: time }),
        env.content_hash == Some(new_hash) ==> state::state_by_value(env, new_hash, time) == Ok::<
            FileStateView,
            InputError,
        >(FileStateView::Unchanged),
        env.content_hash != Some(new_hash) && time.secs < 0 ==> state::state_by_value(
            env,
            new_hash,
            time,
        ) == Err::<FileStateView, InputError>(InputError::BeforeEpoch),
        env.content_hash != Some(new_hash) && time.secs >= 0 ==> state::state_by_value(
            env,
            new_hash,
            time,
        ) == Ok::<FileStateView, InputError>(
            FileStateView::Modified {
                new_hash,
                modified_at: (Timestamp { secs: time.secs, nanos: 0 }),
            },
        ),
        forall|view: FileStateView| #[trigger]
            state::agrees(Ok(state), Ok(view)) <==> state@ == view,
        forall|view: FileStateView| !#[trigger] state::agrees(Err(error), Ok(view)),
        forall|other: InputError| #[trigger]
            state::agrees(Err(error), Err(other)) <==> error == other,
        forall|other: InputError| !#[trigger] state::agrees(Ok(state), Err(other)),
{
}

/// A directory that got one more entry, whose path is not empty text, is found
/// modified, as long as different listings have different digests.
pub proof fn new_entries_are_found<H: Fn(&str) -> String>(
    hash: H,
    digest: spec_fn(Seq<char>) -> Seq<char>,
    file: FileInputView,
    before: Seq<crate::path::FilePath>,
    entry: crate::path::FilePath,
    modified_at: Timestamp,
    entries: Vec<crate::path::FilePath>,
    result: Result<FileState, InputError>,
)
    requires
        digest::computes(hash, digest),
        forall|a: Seq<char>, b: Seq<char>| a != b ==> #[trigger] digest(a) != #[trigger] digest(b),
        crate::text::utf8_lossy(entry.bytes@).len() > 0,
        file.content_hash == Some(digest(state::listing(before))),
        entries@ == before.push(entry),
        state::contents_checked(
            hash,
            file,
            modified_at,
            (PathContents::Directory { entries }),
            result,
        ),
    ensures
        result matches Ok(FileState::Modified { .. }),
{
    crate::laws::lists::all_entries_are_listed(before, Seq::empty(), entry);
    contents_tell_touched_from_modified(
        hash,
        digest,
        file,
        modified_at,
        PathContents::Directory { entries },
        result,
    );
    assert(state::listing(before) != state::listing(entries@));
}

/// What a check by metadata and contents tells is what the two tell, one after the
/// other.
pub proof fn checks_go_by_metadata_first<H: Fn(&str) -> String>(
    hash: H,
    file: FileInputView,
    metadata: Option<FileMetadata>,
    contents: PathContents,
    state: Option<FileStateView>,
)
    requires
        checks::file_checked(hash, file, metadata, contents, state),
    ensures
        state::state_by_metadata(file, metadata) is Err ==> state is None,
        state::state_by_metadata(file, metadata) matches Ok(Some(decided)) ==> state == Some(
            decided,
        ),
{
}

} // verus!
