//! What the models of values say of their fields.
//!
//! Contracts speak of models. These laws hold the models against the fields
//! themselves, so that nothing gets lost between them.
use crate::command::{self, InternalLog, Op, OpView};
use crate::digest;
use crate::input::{
    self, EnvInputDesc, FileInputDesc, Input, InputIdentifier, InputIdentifierView, InputKey,
    InputView,
};
use crate::miss::{self, CacheMissReason, CacheMissReasonView};
use crate::output::{self, Output};
use crate::path::{self, FilePath};
use crate::query::{self, TimeUpdate};
use crate::row::{self, EnvInputRow, FileInputRow};
use crate::state::{FileState, FileStateView, InputError};
use crate::text;
use vstd::prelude::*;
use vstd::std_specs::convert::FromSpec;

verus! {

/// The model of a file has each of its fields, bytes and texts by value.
pub proof fn file_models_keep_all_fields(file: FileInputDesc)
    ensures
        file@.path == file.path.bytes@,
        file@.is_directory == file.is_directory,
        file@.modified_at == file.modified_at,
        file.content_hash matches Some(digest) ==> file@.content_hash == Some(digest@),
        file.content_hash is None ==> file@.content_hash is None,
{
}

/// The model of a variable has each of its fields, texts by value.
pub proof fn variable_models_keep_all_fields(env: EnvInputDesc)
    ensures
        env@.name == env.name@,
        env.content_hash matches Some(digest) ==> env@.content_hash == Some(digest@),
        env.content_hash is None ==> env@.content_hash is None,
{
}

/// The model of an input is that of the file or the variable, whose digest is the
/// input's.
pub proof fn input_models_keep_files_and_variables(input: Input)
    ensures
        match input {
            Input::File(file) => {
                &&& input@ == InputView::File(file@)
                &&& input@.content_hash() == file@.content_hash
                &&& input@.identifier() == InputIdentifierView::File(file.path.bytes@)
            },
            Input::Env(env) => {
                &&& input@ == InputView::Env(env@)
                &&& input@.content_hash() == env@.content_hash
                &&& input@.identifier() == InputIdentifierView::Env(env.name@)
            },
        },
{
}

/// The model of an identifier has its path or name.
pub proof fn identifier_models_keep_paths_and_names(identifier: InputIdentifier)
    ensures
        match identifier {
            InputIdentifier::File(path) => identifier@ == InputIdentifierView::File(path.bytes@),
            InputIdentifier::Env(name) => identifier@ == InputIdentifierView::Env(name@),
        },
{
}

/// Two inputs are the same input if and only if they are files whose paths have the
/// same components, or variables with the same name.
pub proof fn inputs_are_the_same_by_path_or_name(a: InputView, b: InputView)
    ensures
        a.key() == b.key() <==> match (a, b) {
            (InputView::File(x), InputView::File(y)) => path::components(x.path)
                == path::components(y.path),
            (InputView::Env(x), InputView::Env(y)) => x.name == y.name,
            _ => false,
        },
        a.key() == a.identifier().key(),
        a is File <==> a.key() is File,
        a matches InputView::File(x) ==> a.key() == InputKey::File(path::components(x.path)),
        a matches InputView::Env(x) ==> a.key() == InputKey::Env(x.name),
{
}

/// What two inputs hold is the same if and only if they are the same input, of the
/// same kind, and have the same digest or none.
pub proof fn contents_are_the_same_by_kind_and_digest(a: InputView, b: InputView)
    ensures
        input::same_contents(a, b) <==> match (a, b) {
            (InputView::File(x), InputView::File(y)) => path::components(x.path)
                == path::components(y.path) && x.is_directory == y.is_directory && x.content_hash
                == y.content_hash,
            (InputView::Env(x), InputView::Env(y)) => x.name == y.name && x.content_hash
                == y.content_hash,
            _ => false,
        },
        input::equal_inputs(a, b) <==> match (a, b) {
            (InputView::File(x), InputView::File(y)) => path::components(x.path)
                == path::components(y.path) && x.is_directory == y.is_directory && x.content_hash
                == y.content_hash && x.modified_at == y.modified_at,
            (InputView::Env(x), InputView::Env(y)) => x.name == y.name && x.content_hash
                == y.content_hash,
            _ => false,
        },
        match (a, b) {
            (InputView::File(x), InputView::File(y)) => input::equal_files(x, y)
                == input::equal_inputs(a, b),
            _ => true,
        },
{
}

/// The models of lists are those of their members, in their order.
pub proof fn list_models_keep_all_members(
    inputs: Seq<Input>,
    files: Seq<FileInputDesc>,
    envs: Seq<EnvInputDesc>,
    paths: Seq<FilePath>,
    texts: Seq<String>,
    updates: Seq<TimeUpdate>,
)
    ensures
        input::views(inputs).len() == inputs.len(),
        forall|i: int| 0 <= i < inputs.len() ==> #[trigger] input::views(inputs)[i] == inputs[i]@,
        query::file_inputs(files).len() == files.len(),
        forall|i: int|
            0 <= i < files.len() ==> #[trigger] query::file_inputs(files)[i] == InputView::File(
                files[i]@,
            ),
        command::env_inputs(envs).len() == envs.len(),
        forall|i: int|
            0 <= i < envs.len() ==> #[trigger] command::env_inputs(envs)[i] == InputView::Env(
                envs[i]@,
            ),
        miss::spellings(paths).len() == paths.len(),
        forall|i: int|
            0 <= i < paths.len() ==> #[trigger] miss::spellings(paths)[i] == paths[i].bytes@,
        text::texts_of(texts).len() == texts.len(),
        forall|i: int| 0 <= i < texts.len() ==> #[trigger] text::texts_of(texts)[i] == texts[i]@,
        query::updates_of(updates).len() == updates.len(),
        forall|i: int|
            0 <= i < updates.len() ==> #[trigger] query::updates_of(updates)[i] == (
                updates[i].path.bytes@,
                updates[i].modified_at,
            ),
{
}

/// The model of a reason has its paths or names, in their order.
pub proof fn reason_models_keep_paths_and_names(reason: CacheMissReason)
    ensures
        reason is NotCached <==> reason@ is NotCached,
        reason is InputsChanged <==> reason@ is InputsChanged,
        reason matches CacheMissReason::FilesModified { paths: p } ==> reason@
            matches CacheMissReasonView::FilesModified { paths: q } && q.len() == p@.len() && forall|
            i: int,
        | 0 <= i < q.len() ==> #[trigger] q[i] == p@[i].bytes@,
        reason matches CacheMissReason::FilesRemoved { paths: p } ==> reason@
            matches CacheMissReasonView::FilesRemoved { paths: q } && q.len() == p@.len() && forall|
            i: int,
        | 0 <= i < q.len() ==> #[trigger] q[i] == p@[i].bytes@,
        reason matches CacheMissReason::EnvModified { names: p } ==> reason@
            matches CacheMissReasonView::EnvModified { names: q } && q.len() == p@.len() && forall|
            i: int,
        | 0 <= i < q.len() ==> #[trigger] q[i] == p@[i]@,
        reason matches CacheMissReason::EnvRemoved { names: p } ==> reason@
            matches CacheMissReasonView::EnvRemoved { names: q } && q.len() == p@.len() && forall|
            i: int,
        | 0 <= i < q.len() ==> #[trigger] q[i] == p@[i]@,
{
}

/// The model of an output has each of its fields.
pub proof fn output_models_keep_all_fields(result: Output)
    ensures
        result@.status == result.status,
        result@.stdout == result.stdout@,
        result@.stderr == result.stderr@,
        result@.inputs.len() == result.inputs@.len(),
        forall|i: int|
            0 <= i < result.inputs@.len() ==> #[trigger] result@.inputs[i] == result.inputs@[i]@,
        result@.cache_hit == result.cache_hit,
        result.cache_miss_reason matches Some(reason) ==> result@.cache_miss_reason == Some(
            reason@,
        ),
        result.cache_miss_reason is None ==> result@.cache_miss_reason is None,
        forall|reason: CacheMissReason| #[trigger]
            output::reason_view(Some(reason)) == Some(reason@),
        output::reason_view(None) is None,
{
}

/// An output that nothing was put into is that of a command that succeeded, wrote
/// nothing, has no inputs and did not come from the cache.
pub proof fn the_empty_output_has_nothing()
    ensures
        output::empty_output().status.raw == 0,
        output::empty_output().stdout.len() == 0,
        output::empty_output().stderr.len() == 0,
        output::empty_output().inputs.len() == 0,
        !output::empty_output().cache_hit,
        output::empty_output().cache_miss_reason is None,
{
}

/// The model of a state is of the same kind and has the same digest and time.
pub proof fn state_models_keep_all_fields(state: FileState, error: InputError)
    ensures
        match state {
            FileState::Unchanged => state@ == FileStateView::Unchanged,
            FileState::MetadataModified { modified_at } => state@ == (
            FileStateView::MetadataModified { modified_at }),
            FileState::Modified { new_hash, modified_at } => state@ == (FileStateView::Modified {
                new_hash: new_hash@,
                modified_at,
            }),
            FileState::Removed => state@ == FileStateView::Removed,
        },
        query::told(Ok(state)) == Some(state@),
        query::told(Err(error)) is None,
{
}

/// The model of an operation has the path or the name that it tells of, whatever
/// kind of operation it is.
pub proof fn operation_models_keep_paths_and_names(op: Op)
    ensures
        match op {
            Op::CopiedSource { source } => op@ == OpView::Source(source.bytes@),
            Op::EvaluatedFile { source } => op@ == OpView::Source(source.bytes@),
            Op::ReadFile { source } => op@ == OpView::Source(source.bytes@),
            Op::ReadDir { source } => op@ == OpView::Source(source.bytes@),
            Op::PathExists { source } => op@ == OpView::Source(source.bytes@),
            Op::TrackedPath { source } => op@ == OpView::Source(source.bytes@),
            Op::GetEnv { name } => op@ == OpView::GetEnv(name@),
            Op::Other => op@ == OpView::Other,
        },
{
}

/// Two operations are the same if and only if they are of the same kind and tell of
/// the same path or name.
pub proof fn operations_are_the_same_by_kind_and_input(a: Op, b: Op)
    ensures
        command::same_op(a, b) <==> match (a, b) {
            (Op::CopiedSource { source: x }, Op::CopiedSource { source: y }) => x.bytes@ == y.bytes@,
            (Op::EvaluatedFile { source: x }, Op::EvaluatedFile { source: y }) => x.bytes@
                == y.bytes@,
            (Op::ReadFile { source: x }, Op::ReadFile { source: y }) => x.bytes@ == y.bytes@,
            (Op::ReadDir { source: x }, Op::ReadDir { source: y }) => x.bytes@ == y.bytes@,
            (Op::PathExists { source: x }, Op::PathExists { source: y }) => x.bytes@ == y.bytes@,
            (Op::TrackedPath { source: x }, Op::TrackedPath { source: y }) => x.bytes@ == y.bytes@,
            (Op::GetEnv { name: x }, Op::GetEnv { name: y }) => x@ == y@,
            (Op::Other, Op::Other) => true,
            _ => false,
        },
{
}

/// A message reports the operation that it has, whatever kind of operation that is,
/// and shows the text that it has. Other lines report nothing and show their text.
pub proof fn log_lines_tell_what_they_have(
    op: Option<Op>,
    shown: Option<String>,
)
    ensures
        (InternalLog::Msg { op, shown }).reported() == op,
        (InternalLog::Other { shown }).reported() is None,
        shown matches Some(line) ==> (InternalLog::Msg { op, shown }).shown() == Some(line@),
        shown matches Some(line) ==> (InternalLog::Other { shown }).shown() == Some(line@),
        shown is None ==> (InternalLog::Msg { op, shown }).shown() is None,
        shown is None ==> (InternalLog::Other { shown }).shown() is None,
{
}

/// A file that comes out of the database is the one that the row holds; an empty
/// digest stands for none, and no other does.
pub proof fn file_rows_keep_all_fields(row: FileInputRow)
    ensures
        ({
            let file = FileInputDesc::from_spec(row);
            &&& file.path == row.path
            &&& file.is_directory == row.is_directory
            &&& file.modified_at == row.modified_at
            &&& row.content_hash@.len() == 0 ==> file.content_hash is None
            &&& row.content_hash@.len() > 0 ==> file.content_hash == Some(row.content_hash)
            &&& Input::from_spec(row) == Input::File(file)
        }),
{
}

/// A variable that comes out of the database is the one that the row holds; an empty
/// digest stands for none, and no other does.
pub proof fn variable_rows_keep_all_fields(row: EnvInputRow)
    ensures
        ({
            let env = EnvInputDesc::from_spec(row);
            &&& env.name == row.name
            &&& row.content_hash@.len() == 0 ==> env.content_hash is None
            &&& row.content_hash@.len() > 0 ==> env.content_hash == Some(row.content_hash)
            &&& Input::from_spec(row) == Input::Env(env)
        }),
{
}

/// All rows come out of the database, files before variables, each in their order.
pub proof fn all_rows_are_read(files: Seq<FileInputRow>, envs: Seq<EnvInputRow>)
    ensures
        row::inputs_of_rows(files, envs).len() == files.len() + envs.len(),
        forall|i: int|
            0 <= i < files.len() ==> #[trigger] row::inputs_of_rows(files, envs)[i]
                == <Input as FromSpec<FileInputRow>>::from_spec(files[i]),
        forall|i: int|
            files.len() <= i < files.len() + envs.len() ==> #[trigger] row::inputs_of_rows(
                files,
                envs,
            )[i] == <Input as FromSpec<EnvInputRow>>::from_spec(envs[i - files.len()]),
{
}

/// A digest is the same text wherever it is.
pub proof fn digests_are_their_texts(digest: Option<String>)
    ensures
        digest matches Some(text) ==> digest::digest_text(digest) == Some(text@),
        digest is None ==> digest::digest_text(digest) is None,
{
}

} // verus!
