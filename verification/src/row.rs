//! Inputs as the cache database holds them.
use crate::input::{EnvInputDesc, FileInputDesc, Input};
use crate::path::FilePath;
use crate::time::Timestamp;
use vstd::prelude::*;
use vstd::string::*;

verus! {

/// A file as the database holds it. An empty digest stands for none.
#[derive(Debug)]
pub struct FileInputRow {
    pub path: FilePath,
    pub is_directory: bool,
    pub content_hash: String,
    pub modified_at: Timestamp,
    pub updated_at: Timestamp,
}

/// A variable as the database holds it. An empty digest stands for none.
#[derive(Debug)]
pub struct EnvInputRow {
    pub name: String,
    pub content_hash: String,
}

/// The digest that the database's text for it stands for.
pub open spec fn stored_digest(text: String) -> Option<String> {
    if text@.len() == 0 {
        None
    } else {
        Some(text)
    }
}

/// The file that a row stands for.
pub open spec fn file_of_row(row: FileInputRow) -> FileInputDesc {
    FileInputDesc {
        path: row.path,
        is_directory: row.is_directory,
        content_hash: stored_digest(row.content_hash),
        modified_at: row.modified_at,
    }
}

/// The variable that a row stands for.
pub open spec fn env_of_row(row: EnvInputRow) -> EnvInputDesc {
    EnvInputDesc { name: row.name, content_hash: stored_digest(row.content_hash) }
}

/// The inputs that rows stand for, files first.
pub open spec fn inputs_of_rows(files: Seq<FileInputRow>, envs: Seq<EnvInputRow>) -> Seq<Input> {
    files.map_values(|row: FileInputRow| Input::File(file_of_row(row))) + envs.map_values(
        |row: EnvInputRow| Input::Env(env_of_row(row)),
    )
}

fn read_digest(text: String) -> (result: Option<String>)
    ensures
        result == stored_digest(text),
{
    if text.as_str().is_empty() {
        None
    } else {
        Some(text)
    }
}

impl From<FileInputRow> for FileInputDesc {
    fn from(row: FileInputRow) -> (result: FileInputDesc) {
        FileInputDesc {
            path: row.path,
            is_directory: row.is_directory,
            content_hash: read_digest(row.content_hash),
            modified_at: row.modified_at,
        }
    }
}

impl vstd::std_specs::convert::FromSpecImpl<FileInputRow> for FileInputDesc {
    open spec fn obeys_from_spec() -> bool {
        true
    }

    open spec fn from_spec(row: FileInputRow) -> FileInputDesc {
        file_of_row(row)
    }
}

impl From<EnvInputRow> for EnvInputDesc {
    fn from(row: EnvInputRow) -> (result: EnvInputDesc) {
        EnvInputDesc { name: row.name, content_hash: read_digest(row.content_hash) }
    }
}

impl vstd::std_specs::convert::FromSpecImpl<EnvInputRow> for EnvInputDesc {
    open spec fn obeys_from_spec() -> bool {
        true
    }

    open spec fn from_spec(row: EnvInputRow) -> EnvInputDesc {
        env_of_row(row)
    }
}

impl From<FileInputRow> for Input {
    fn from(row: FileInputRow) -> (result: Input) {
        Input::File(FileInputDesc::from(row))
    }
}

impl vstd::std_specs::convert::FromSpecImpl<FileInputRow> for Input {
    open spec fn obeys_from_spec() -> bool {
        true
    }

    open spec fn from_spec(row: FileInputRow) -> Input {
        Input::File(file_of_row(row))
    }
}

impl From<EnvInputRow> for Input {
    fn from(row: EnvInputRow) -> (result: Input) {
        Input::Env(EnvInputDesc::from(row))
    }
}

impl vstd::std_specs::convert::FromSpecImpl<EnvInputRow> for Input {
    open spec fn obeys_from_spec() -> bool {
        true
    }

    open spec fn from_spec(row: EnvInputRow) -> Input {
        Input::Env(env_of_row(row))
    }
}

/// The inputs that rows stand for, files first.
pub fn read_rows(files: Vec<FileInputRow>, envs: Vec<EnvInputRow>) -> (result: Vec<Input>)
    ensures
        result@ == inputs_of_rows(files@, envs@),
{
    let ghost expected_files = files@.map_values(
        |row: FileInputRow| Input::File(file_of_row(row)),
    );
    let ghost expected_envs = envs@.map_values(|row: EnvInputRow| Input::Env(env_of_row(row)));
    let mut inputs: Vec<Input> = Vec::new();
    for row in it: files
        invariant
            it.seq().map_values(|row: FileInputRow| Input::File(file_of_row(row)))
                == expected_files,
            inputs@ == expected_files.take(it.index()),
    {
        inputs.push(Input::from(row));
        assert(inputs@ =~= expected_files.take(it.index() + 1));
    }
    assert(inputs@ =~= expected_files);
    for row in it: envs
        invariant
            it.seq().map_values(|row: EnvInputRow| Input::Env(env_of_row(row))) == expected_envs,
            inputs@ == expected_files + expected_envs.take(it.index()),
    {
        inputs.push(Input::from(row));
        assert(inputs@ =~= expected_files + expected_envs.take(it.index() + 1));
    }
    assert(inputs@ =~= expected_files + expected_envs);
    inputs
}

} // verus!
