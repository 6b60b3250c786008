//! Looking a command up in the cache.
//!
//! A lookup has two steps. [`query_cached_output`] takes what the database holds
//! of the command and tells whether it was run with the inputs that are tracked
//! now. If so, each input is to be checked, and [`conclude_query`] takes the states
//! in which they were found.
use crate::digest;
use crate::input::{self, FileInputDesc, Input, InputView};
use crate::miss::{self, explain_mismatch, CacheMissReason, CacheMissReasonView};
use crate::normal::{self, normalise};
use crate::output::{ExitStatus, Output, OutputView};
use crate::path::FilePath;
use crate::row::{self, read_rows, EnvInputRow, FileInputRow};
use crate::state::{FileState, FileStateView, InputError};
use crate::table;
use crate::text;
use crate::time::Timestamp;
use vstd::prelude::*;

verus! {

/// A command as the database holds it.
#[derive(Debug)]
pub struct CachedCommand {
    pub id: i64,
    /// The digest that stood for all of the command's inputs together.
    pub input_hash: String,
    /// What the command wrote to stdout.
    pub output: Vec<u8>,
}

/// A command with its inputs, as the database holds them.
#[derive(Debug)]
pub struct CachedEntry {
    pub command: CachedCommand,
    pub files: Vec<FileInputRow>,
    pub envs: Vec<EnvInputRow>,
}

/// How far the database alone tells whether the cached output may be used.
#[derive(Debug)]
pub enum CacheQuery {
    /// It may not.
    Miss(CacheMissReason),
    /// Each of the inputs is to be checked.
    CheckInputs { command: CachedCommand, inputs: Vec<Input> },
}

/// Result from checking the cache - either a hit with output, or a miss with a reason.
#[derive(Debug)]
pub enum CacheCheckResult {
    Hit(Output),
    Miss(CacheMissReason),
}

/// A file whose recorded time of modification is out of date.
#[derive(Debug)]
pub struct TimeUpdate {
    pub path: FilePath,
    pub modified_at: Timestamp,
}

/// The result of a lookup, and the times to be recorded whatever it is.
#[derive(Debug)]
pub struct QueryConclusion {
    pub updates: Vec<TimeUpdate>,
    pub result: CacheCheckResult,
}

/// The models of a list of files, as inputs.
pub open spec fn file_inputs(files: Seq<FileInputDesc>) -> Seq<InputView> {
    files.map_values(|file: FileInputDesc| InputView::File(file@))
}

/// The recorded inputs together with files that are tracked beyond them.
pub open spec fn current_inputs(old: Seq<InputView>, extra: Seq<InputView>) -> Seq<InputView> {
    normal::normalised(old + extra)
}

/// The inputs that an entry of the database records.
pub open spec fn recorded_inputs(entry: CachedEntry) -> Seq<InputView> {
    input::views(row::inputs_of_rows(entry.files@, entry.envs@))
}

/// What the database tells, given the digest that stands for the current inputs:
/// they are to be checked if it is the recorded one, and are explained by how they
/// differ from the recorded ones if it is not.
pub open spec fn query_step(
    query: CacheQuery,
    entry: CachedEntry,
    current: Seq<InputView>,
    new_hash: Seq<char>,
) -> bool {
    if entry.command.input_hash@ == new_hash {
        query matches CacheQuery::CheckInputs { command, inputs } && command == entry.command
            && input::views(inputs@) == current
    } else {
        query matches CacheQuery::Miss(reason) && miss::explains(
            reason@,
            table::by_identity(recorded_inputs(entry)),
            table::by_identity(current),
        )
    }
}

/// What the database tells of a command, if it holds anything of it, when `extra`
/// is tracked beyond the recorded inputs.
pub open spec fn database_tells<H: Fn(&str) -> String>(
    hash: H,
    entry: Option<CachedEntry>,
    extra: Seq<InputView>,
    query: CacheQuery,
) -> bool {
    match entry {
        None => query matches CacheQuery::Miss(CacheMissReason::NotCached),
        Some(entry) => {
            let current = current_inputs(recorded_inputs(entry), extra);
            exists|new_hash: Seq<char>|
                {
                    &&& #[trigger] digest::hashes_to(hash, input::hash_source(current), new_hash)
                    &&& query_step(query, entry, current, new_hash)
                }
        },
    }
}

/// The recorded inputs together with files that are tracked beyond them.
fn add_files(old: &Vec<Input>, extra: Vec<FileInputDesc>) -> (result: Vec<Input>)
    ensures
        input::views(result@) == current_inputs(input::views(old@), file_inputs(extra@)),
{
    let mut inputs: Vec<Input> = Vec::new();
    let ghost models = input::views(old@);
    let ghost files = file_inputs(extra@);
    let mut i: usize = 0;
    while i < old.len()
        invariant
            i <= old@.len(),
            models == input::views(old@),
            input::views(inputs@) == models.take(i as int),
        decreases old@.len() - i,
    {
        let ghost before = inputs@;
        inputs.push(old[i].clone());
        assert(input::views(inputs@) =~= input::views(before).push(old@[i as int]@));
        assert(models.take(i + 1) =~= models.take(i as int).push(models[i as int]));
        i += 1;
    }
    assert(input::views(inputs@) =~= models);
    for file in it: extra
        invariant
            file_inputs(it.seq()) == files,
            input::views(inputs@) == models + files.take(it.index()),
    {
        let ghost before = inputs@;
        assert(files[it.index()] == InputView::File(file@));
        inputs.push(Input::File(file));
        assert(input::views(inputs@) =~= input::views(before).push(files[it.index()]));
        assert(files.take(it.index() + 1) =~= files.take(it.index()).push(files[it.index()]));
        assert(input::views(inputs@) =~= models + files.take(it.index() + 1));
    }
    assert(input::views(inputs@) =~= models + files);
    normalise(&mut inputs);
    inputs
}

/// What the database tells of a command, given its recorded inputs, the current
/// ones, and the digest that stands for these.
pub fn judge_inputs(
    command: CachedCommand,
    old: &Vec<Input>,
    inputs: Vec<Input>,
    new_hash: &String,
) -> (result: CacheQuery)
    ensures
        if command.input_hash@ == new_hash@ {
            result == (CacheQuery::CheckInputs { command, inputs })
        } else {
            result matches CacheQuery::Miss(reason) && miss::explains(
                reason@,
                table::by_identity(input::views(old@)),
                table::by_identity(input::views(inputs@)),
            )
        },
{
    if command.input_hash == *new_hash {
        CacheQuery::CheckInputs { command, inputs }
    } else {
        CacheQuery::Miss(explain_mismatch(old, &inputs))
    }
}

/// Try to fetch the cached output for a command.
///
/// Takes what the database holds of it, if anything, and the files that are tracked
/// beyond those that it was recorded with.
pub fn query_cached_output<H: Fn(&str) -> String>(
    entry: Option<CachedEntry>,
    extra: Vec<FileInputDesc>,
    hash: &H,
) -> (result: CacheQuery)
    requires
        digest::hashes_any_text(*hash),
    ensures
        database_tells(*hash, entry, file_inputs(extra@), result),
{
    let entry = match entry {
        Some(entry) => entry,
        None => return CacheQuery::Miss(CacheMissReason::NotCached),
    };
    let old_inputs = read_rows(entry.files, entry.envs);
    let inputs = add_files(&old_inputs, extra);
    let new_hash = Input::compute_input_hash(inputs.as_slice(), hash);
    let ghost current = input::views(inputs@);
    let result = judge_inputs(entry.command, &old_inputs, inputs, &new_hash);
    assert(query_step(result, entry, current, new_hash@));
    result
}

/// An input and the state in which it was found, if that could be told.
#[verifier::ext_equal]
pub struct Checked {
    pub input: InputView,
    pub state: Option<FileStateView>,
}

/// The states in which inputs were found, each by the place of the input in the
/// list.
pub type States = Vec<(usize, Result<FileState, InputError>)>;

/// Every state is that of an input of the list.
pub open spec fn states_fit(inputs: Seq<Input>, states: States) -> bool {
    forall|i: int| 0 <= i < states@.len() ==> (#[trigger] states@[i]).0 < inputs.len()
}

/// The state that a check told, if it did.
pub open spec fn told(state: Result<FileState, InputError>) -> Option<FileStateView> {
    match state {
        Ok(state) => Some(state@),
        Err(_) => None,
    }
}

/// The inputs with the states in which they were found, in the order of the checks.
pub open spec fn checked(inputs: Seq<Input>, states: States) -> Seq<Checked> {
    states@.map_values(
        |found: (usize, Result<FileState, InputError>)|
            Checked { input: inputs[found.0 as int]@, state: told(found.1) },
    )
}

/// What makes a cached output unusable.
#[derive(Clone, Copy, Debug, PartialEq, Eq, Structural)]
pub enum Change {
    Modified,
    Removed,
}

/// The input was found changed in this way.
pub open spec fn is_changed(found: Checked, change: Change) -> bool {
    match change {
        Change::Modified => found.state matches Some(FileStateView::Modified { .. }),
        Change::Removed => found.state == Some(FileStateView::Removed),
    }
}

/// The paths of the files that were found changed in this way.
pub open spec fn changed_files(found: Seq<Checked>, change: Change) -> Seq<Seq<u8>>
    decreases found.len(),
{
    if found.len() == 0 {
        Seq::empty()
    } else {
        let rest = changed_files(found.drop_last(), change);
        match found.last().input {
            InputView::File(file) if is_changed(found.last(), change) => rest.push(file.path),
            _ => rest,
        }
    }
}

/// The names of the variables that were found changed in this way.
pub open spec fn changed_envs(found: Seq<Checked>, change: Change) -> Seq<Seq<char>>
    decreases found.len(),
{
    if found.len() == 0 {
        Seq::empty()
    } else {
        let rest = changed_envs(found.drop_last(), change);
        match found.last().input {
            InputView::Env(env) if is_changed(found.last(), change) => rest.push(env.name),
            _ => rest,
        }
    }
}

/// The files that were only touched, with the time.
pub open spec fn touched_files(found: Seq<Checked>) -> Seq<(Seq<u8>, Timestamp)>
    decreases found.len(),
{
    if found.len() == 0 {
        Seq::empty()
    } else {
        let rest = touched_files(found.drop_last());
        match (found.last().input, found.last().state) {
            (InputView::File(file), Some(FileStateView::MetadataModified { modified_at })) =>
                rest.push((file.path, modified_at)),
            _ => rest,
        }
    }
}

/// The most relevant reason why the states of the inputs rule the cached output
/// out, if they do: modified files first, then removed ones, then variables in the
/// same way.
pub open spec fn states_reason(found: Seq<Checked>) -> Option<CacheMissReasonView> {
    if changed_files(found, Change::Modified).len() > 0 {
        Some(
            CacheMissReasonView::FilesModified { paths: changed_files(found, Change::Modified) },
        )
    } else if changed_files(found, Change::Removed).len() > 0 {
        Some(CacheMissReasonView::FilesRemoved { paths: changed_files(found, Change::Removed) })
    } else if changed_envs(found, Change::Modified).len() > 0 {
        Some(CacheMissReasonView::EnvModified { names: changed_envs(found, Change::Modified) })
    } else if changed_envs(found, Change::Removed).len() > 0 {
        Some(CacheMissReasonView::EnvRemoved { names: changed_envs(found, Change::Removed) })
    } else {
        None
    }
}

/// The models of a list of updates.
pub open spec fn updates_of(updates: Seq<TimeUpdate>) -> Seq<(Seq<u8>, Timestamp)> {
    updates.map_values(|update: TimeUpdate| (update.path@, update.modified_at))
}

/// The output that the cache gives for a command.
pub open spec fn cached_output(command: CachedCommand, inputs: Seq<InputView>) -> OutputView {
    OutputView {
        status: ExitStatus { raw: 0 },
        stdout: command.output@,
        stderr: Seq::empty(),
        inputs,
        cache_hit: true,
        cache_miss_reason: None,
    }
}

/// How a lookup ends when the inputs were found in these states.
pub open spec fn concludes(
    conclusion: QueryConclusion,
    command: CachedCommand,
    inputs: Seq<InputView>,
    found: Seq<Checked>,
) -> bool {
    &&& updates_of(conclusion.updates@) == touched_files(found)
    &&& match states_reason(found) {
        Some(expected) => conclusion.result matches CacheCheckResult::Miss(reason) && reason@
            == expected,
        None => conclusion.result matches CacheCheckResult::Hit(output) && output@
            == cached_output(command, inputs),
    }
}

/// What was found changed, by kind.
struct Findings {
    updates: Vec<TimeUpdate>,
    modified_files: Vec<FilePath>,
    removed_files: Vec<FilePath>,
    modified_envs: Vec<String>,
    removed_envs: Vec<String>,
}

impl Findings {
    spec fn sum_up(self, found: Seq<Checked>) -> bool {
        &&& updates_of(self.updates@) == touched_files(found)
        &&& miss::spellings(self.modified_files@) == changed_files(found, Change::Modified)
        &&& miss::spellings(self.removed_files@) == changed_files(found, Change::Removed)
        &&& text::texts_of(self.modified_envs@) == changed_envs(found, Change::Modified)
        &&& text::texts_of(self.removed_envs@) == changed_envs(found, Change::Removed)
    }

    fn add(
        &mut self,
        input: &Input,
        state: &Result<FileState, InputError>,
        Ghost(found): Ghost<Seq<Checked>>,
    )
        requires
            old(self).sum_up(found),
        ensures
            final(self).sum_up(found.push(Checked { input: input@, state: told(*state) })),
    {
        let ghost now = Checked { input: input@, state: told(*state) };
        assert(found.push(now).drop_last() =~= found);
        if let Ok(state) = state {
            match (state, input) {
                (FileState::MetadataModified { modified_at }, Input::File(file)) => {
                    // mtime changed but content is the same - update the cached mtime
                    let update = TimeUpdate {
                        path: file.path.clone(),
                        modified_at: *modified_at,
                    };
                    self.updates.push(update);
                    assert(updates_of(self.updates@) =~= updates_of(old(self).updates@).push(
                        (file.path@, *modified_at),
                    ));
                },
                (FileState::Modified { .. }, Input::File(file)) => {
                    self.modified_files.push(file.path.clone());
                    assert(miss::spellings(self.modified_files@) =~= miss::spellings(
                        old(self).modified_files@,
                    ).push(file.path@));
                },
                (FileState::Modified { .. }, Input::Env(env)) => {
                    self.modified_envs.push(env.name.clone());
                    assert(text::texts_of(self.modified_envs@) =~= text::texts_of(
                        old(self).modified_envs@,
                    ).push(env.name@));
                },
                (FileState::Removed, Input::File(file)) => {
                    self.removed_files.push(file.path.clone());
                    assert(miss::spellings(self.removed_files@) =~= miss::spellings(
                        old(self).removed_files@,
                    ).push(file.path@));
                },
                (FileState::Removed, Input::Env(env)) => {
                    self.removed_envs.push(env.name.clone());
                    assert(text::texts_of(self.removed_envs@) =~= text::texts_of(
                        old(self).removed_envs@,
                    ).push(env.name@));
                },
                _ => {},
            }
        }
    }
}

/// Concludes a lookup from the states in which the inputs were found. An input
/// whose state could not be told does not rule the cached output out.
pub fn conclude_query(command: CachedCommand, inputs: Vec<Input>, states: &States) -> (result:
    QueryConclusion)
    requires
        states_fit(inputs@, *states),
    ensures
        concludes(result, command, input::views(inputs@), checked(inputs@, *states)),
{
    let mut findings = Findings {
        updates: Vec::new(),
        modified_files: Vec::new(),
        removed_files: Vec::new(),
        modified_envs: Vec::new(),
        removed_envs: Vec::new(),
    };
    let ghost found = checked(inputs@, *states);
    assert(findings.sum_up(found.take(0))) by {
        assert(updates_of(findings.updates@) =~= Seq::<(Seq<u8>, Timestamp)>::empty());
        assert(miss::spellings(findings.modified_files@) =~= Seq::<Seq<u8>>::empty());
        assert(miss::spellings(findings.removed_files@) =~= Seq::<Seq<u8>>::empty());
        assert(text::texts_of(findings.modified_envs@) =~= Seq::<Seq<char>>::empty());
        assert(text::texts_of(findings.removed_envs@) =~= Seq::<Seq<char>>::empty());
    }
    let mut i: usize = 0;
    while i < states.len()
        invariant
            i <= states@.len(),
            states_fit(inputs@, *states),
            found == checked(inputs@, *states),
            findings.sum_up(found.take(i as int)),
        decreases states@.len() - i,
    {
        assert(states@[i as int].0 < inputs@.len());
        let index: usize = states[i].0;
        findings.add(&inputs[index], &states[i].1, Ghost(found.take(i as int)));
        assert(found.take(i + 1) =~= found.take(i as int).push(found[i as int]));
        i += 1;
    }
    assert(found.take(i as int) =~= found);
    // Return the most relevant reason for cache miss
    let result = if findings.modified_files.len() > 0 {
        CacheCheckResult::Miss(CacheMissReason::FilesModified { paths: findings.modified_files })
    } else if findings.removed_files.len() > 0 {
        CacheCheckResult::Miss(CacheMissReason::FilesRemoved { paths: findings.removed_files })
    } else if findings.modified_envs.len() > 0 {
        CacheCheckResult::Miss(CacheMissReason::EnvModified { names: findings.modified_envs })
    } else if findings.removed_envs.len() > 0 {
        CacheCheckResult::Miss(CacheMissReason::EnvRemoved { names: findings.removed_envs })
    } else {
        let output = Output {
            status: ExitStatus::default(),
            stdout: command.output,
            stderr: Vec::new(),
            inputs,
            cache_hit: true,
            cache_miss_reason: None,
        };
        assert(output@ =~= cached_output(command, input::views(inputs@)));
        CacheCheckResult::Hit(output)
    };
    QueryConclusion { updates: findings.updates, result }
}

} // verus!
