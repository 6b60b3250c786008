//! Running a command: what it is run with, and what is made of its run.
use crate::digest;
use crate::input::{self, EnvInputDesc, FileInputDesc, Input, InputView};
use crate::miss::{self, CacheMissReason};
use crate::normal::{self, normalise};
use crate::output::{self, ExitStatus, Output, OutputView};
use crate::path::{self, FilePath};
use crate::query;
use crate::text;
use vstd::prelude::*;
use vstd::string::*;
use vstd::utf8::*;

verus! {

/// What a command reports to have done, as far as it tells of inputs.
#[derive(Debug)]
pub enum Op {
    /// A path was copied to the store.
    CopiedSource { source: FilePath },
    /// A file was evaluated.
    EvaluatedFile { source: FilePath },
    /// A file was read.
    ReadFile { source: FilePath },
    /// A directory was listed.
    ReadDir { source: FilePath },
    /// It was asked whether a path exists.
    PathExists { source: FilePath },
    /// A path is tracked for another reason.
    TrackedPath { source: FilePath },
    /// An environment variable was read.
    GetEnv { name: String },
    /// Something else was done.
    Other,
}

/// The model of an [`Op`]: the input that it tells of, if any.
#[verifier::ext_equal]
pub enum OpView {
    Source(Seq<u8>),
    GetEnv(Seq<char>),
    Other,
}

impl View for Op {
    type V = OpView;

    open spec fn view(&self) -> OpView {
        match *self {
            Op::CopiedSource { source } => OpView::Source(source@),
            Op::EvaluatedFile { source } => OpView::Source(source@),
            Op::ReadFile { source } => OpView::Source(source@),
            Op::ReadDir { source } => OpView::Source(source@),
            Op::PathExists { source } => OpView::Source(source@),
            Op::TrackedPath { source } => OpView::Source(source@),
            Op::GetEnv { name } => OpView::GetEnv(name@),
            Op::Other => OpView::Other,
        }
    }
}

/// Both report the same operation on the same input.
pub open spec fn same_op(a: Op, b: Op) -> bool {
    &&& a@ == b@
    &&& match a {
        Op::CopiedSource { .. } => b is CopiedSource,
        Op::EvaluatedFile { .. } => b is EvaluatedFile,
        Op::ReadFile { .. } => b is ReadFile,
        Op::ReadDir { .. } => b is ReadDir,
        Op::PathExists { .. } => b is PathExists,
        Op::TrackedPath { .. } => b is TrackedPath,
        Op::GetEnv { .. } => b is GetEnv,
        Op::Other => b is Other,
    }
}

impl Clone for Op {
    fn clone(&self) -> (result: Op)
        ensures
            same_op(result, *self),
    {
        match self {
            Op::CopiedSource { source } => Op::CopiedSource { source: source.clone() },
            Op::EvaluatedFile { source } => Op::EvaluatedFile { source: source.clone() },
            Op::ReadFile { source } => Op::ReadFile { source: source.clone() },
            Op::ReadDir { source } => Op::ReadDir { source: source.clone() },
            Op::PathExists { source } => Op::PathExists { source: source.clone() },
            Op::TrackedPath { source } => Op::TrackedPath { source: source.clone() },
            Op::GetEnv { name } => Op::GetEnv { name: name.clone() },
            Op::Other => Op::Other,
        }
    }
}

/// How much of a command's log is meant to be shown: what is at this level or above
/// it. The levels come from the most to the least urgent.
#[derive(Clone, Copy, Debug, PartialEq, Eq, Structural)]
pub enum Verbosity {
    Error,
    Warn,
    Notice,
    Info,
    Talkative,
    Chatty,
    Debug,
    Vomit,
}

/// A line of a command's log.
#[derive(Debug)]
pub enum InternalLog {
    /// A message, with the operation that its text reports, if it reports one, and
    /// the text as far as it is meant to be shown.
    Msg { op: Option<Op>, shown: Option<String> },
    /// Any other line, with its text as far as it is meant to be shown.
    Other { shown: Option<String> },
}

impl InternalLog {
    /// The text that is meant to be shown, if there is any.
    pub open spec fn shown(self) -> Option<Seq<char>> {
        match self {
            InternalLog::Msg { shown: Some(text), .. } => Some(text@),
            InternalLog::Other { shown: Some(text) } => Some(text@),
            _ => None,
        }
    }

    /// The operation that a message reports. Other lines report none.
    pub open spec fn reported(self) -> Option<Op> {
        match self {
            InternalLog::Msg { op, .. } => op,
            InternalLog::Other { .. } => None,
        }
    }
}

/// The operation that a line of the log reports.
pub fn extract_op_from_log_line(log: &InternalLog) -> (result: Option<Op>)
    ensures
        match (result, log.reported()) {
            (Some(op), Some(reported)) => same_op(op, reported),
            (None, None) => true,
            _ => false,
        },
        match *log {
            InternalLog::Msg { op: Some(op), .. } => result matches Some(found) && same_op(found, op),
            _ => result is None,
        },
{
    match log {
        InternalLog::Msg { op: Some(op), .. } => Some(op.clone()),
        _ => None,
    }
}

/// The byte that ends a line.
pub const NEWLINE: u8 = 0x0a;

/// Lines of text as bytes, each with a line end.
pub open spec fn lines_bytes(lines: Seq<Seq<char>>) -> Seq<u8>
    decreases lines.len(),
{
    if lines.len() == 0 {
        Seq::empty()
    } else {
        lines_bytes(lines.drop_last()) + encode_utf8(lines.last()) + seq![NEWLINE]
    }
}

/// The texts of the log that are meant to be shown.
pub open spec fn shown_lines(logs: Seq<InternalLog>) -> Seq<Seq<char>>
    decreases logs.len(),
{
    if logs.len() == 0 {
        Seq::empty()
    } else {
        let rest = shown_lines(logs.drop_last());
        match logs.last().shown() {
            Some(line) => rest.push(line),
            None => rest,
        }
    }
}

/// The operations that the log reports.
pub open spec fn reported_ops(logs: Seq<InternalLog>) -> Seq<Op>
    decreases logs.len(),
{
    if logs.len() == 0 {
        Seq::empty()
    } else {
        let rest = reported_ops(logs.drop_last());
        match logs.last().reported() {
            Some(op) => rest.push(op),
            None => rest,
        }
    }
}

/// The lists report the same operations on the same inputs, in the same order.
pub open spec fn same_ops(a: Seq<Op>, b: Seq<Op>) -> bool {
    &&& a.len() == b.len()
    &&& forall|i: int| #![trigger a[i]] 0 <= i < a.len() ==> same_op(a[i], b[i])
}

fn append_line(bytes: &mut Vec<u8>, line: &str)
    ensures
        final(bytes)@ == old(bytes)@ + encode_utf8(line@) + seq![NEWLINE],
{
    bytes.extend_from_slice(line.as_bytes());
    assert(bytes@ =~= old(bytes)@ + encode_utf8(line@));
    bytes.push(NEWLINE);
}

/// What a command's log tells: the operations that it reports, and the texts that
/// are meant to be shown.
pub fn read_log(logs: &Vec<InternalLog>) -> (result: (Vec<Op>, Vec<u8>))
    ensures
        same_ops(result.0@, reported_ops(logs@)),
        result.1@ == lines_bytes(shown_lines(logs@)),
{
    let mut ops: Vec<Op> = Vec::new();
    let mut messages: Vec<u8> = Vec::new();
    let mut i: usize = 0;
    while i < logs.len()
        invariant
            i <= logs@.len(),
            same_ops(ops@, reported_ops(logs@.take(i as int))),
            messages@ == lines_bytes(shown_lines(logs@.take(i as int))),
        decreases logs@.len() - i,
    {
        let ghost now = logs@.take(i + 1);
        assert(now.drop_last() =~= logs@.take(i as int));
        assert(now.last() == logs@[i as int]);
        if let Some(op) = extract_op_from_log_line(&logs[i]) {
            ops.push(op);
        }
        let shown = match &logs[i] {
            InternalLog::Msg { shown, .. } => shown,
            InternalLog::Other { shown } => shown,
        };
        if let Some(line) = shown {
            append_line(&mut messages, line.as_str());
            assert(shown_lines(now).drop_last() =~= shown_lines(logs@.take(i as int)));
        }
        i += 1;
    }
    assert(logs@.take(i as int) =~= logs@);
    (ops, messages)
}

/// A path that a command reported matters to the cache: it is absolute, outside
/// the store, and not below a path that is excluded.
pub open spec fn is_tracked(source: Seq<u8>, excluded: Seq<Seq<u8>>) -> bool {
    &&& path::path_starts_with(source, encode_utf8("/"@))
    &&& !path::path_starts_with(source, encode_utf8("/nix/store"@))
    &&& forall|i: int|
        0 <= i < excluded.len() ==> !path::path_starts_with(source, #[trigger] excluded[i])
}

/// The reported paths that matter to the cache.
pub open spec fn tracked_sources(ops: Seq<Op>, excluded: Seq<Seq<u8>>) -> Seq<Seq<u8>>
    decreases ops.len(),
{
    if ops.len() == 0 {
        Seq::empty()
    } else {
        let rest = tracked_sources(ops.drop_last(), excluded);
        match ops.last()@ {
            OpView::Source(source) if is_tracked(source, excluded) => rest.push(source),
            _ => rest,
        }
    }
}

/// The variables that were reported to be read.
pub open spec fn read_variables(ops: Seq<Op>) -> Seq<Seq<char>>
    decreases ops.len(),
{
    if ops.len() == 0 {
        Seq::empty()
    } else {
        let rest = read_variables(ops.drop_last());
        match ops.last()@ {
            OpView::GetEnv(name) => rest.push(name),
            _ => rest,
        }
    }
}

/// The inputs that a command depends on, before they are looked at.
#[derive(Debug)]
pub struct Dependencies {
    pub sources: Vec<FilePath>,
    pub env_names: Vec<String>,
}

/// How a run of a command ended, and all bytes that it wrote.
#[derive(Debug)]
pub struct CommandRun {
    pub status: ExitStatus,
    pub stdout: Vec<u8>,
    pub stderr: Vec<u8>,
}

/// The result of a run, and the digest of its inputs under which it is to be
/// recorded, if it is.
#[derive(Debug)]
pub struct FinishedRun {
    pub output: Output,
    pub record: Option<String>,
}

/// The output of a run that failed.
pub open spec fn failed_output(run: CommandRun, reason: Option<CacheMissReason>) -> OutputView {
    OutputView {
        status: run.status,
        stdout: run.stdout@,
        stderr: run.stderr@,
        cache_miss_reason: output::reason_view(reason),
        ..output::empty_output()
    }
}

/// The models of a list of variables, as inputs.
pub open spec fn env_inputs(envs: Seq<EnvInputDesc>) -> Seq<InputView> {
    envs.map_values(|env: EnvInputDesc| InputView::Env(env@))
}

/// The output of a run that succeeded.
pub open spec fn fresh_output(
    run: CommandRun,
    inputs: Seq<InputView>,
    reason: Option<CacheMissReason>,
) -> OutputView {
    OutputView {
        status: run.status,
        stdout: run.stdout@,
        stderr: run.stderr@,
        inputs,
        cache_hit: false,
        cache_miss_reason: output::reason_view(reason),
    }
}

/// What is made of a run whose command depends on these inputs. A failed run has no
/// inputs and is not recorded; one that succeeded is recorded if caching is
/// enabled, under the digest of its inputs in normal form.
pub open spec fn finishes<H: Fn(&str) -> String>(
    hash: H,
    enable_caching: bool,
    run: CommandRun,
    found: Seq<InputView>,
    reason: Option<CacheMissReason>,
    finished: FinishedRun,
) -> bool {
    if run.status.raw != 0 {
        finished.output@ == failed_output(run, reason) && finished.record is None
    } else {
        let inputs = normal::normalised(found);
        &&& finished.output@ == fresh_output(run, inputs, reason)
        &&& match finished.record {
            Some(input_hash) => enable_caching && digest::hashes_to(
                hash,
                input::hash_source(inputs),
                input_hash@,
            ),
            None => !enable_caching,
        }
    }
}

/// How a command is run and cached.
#[derive(Debug)]
pub struct NixCommand {
    pub enable_caching: bool,
    pub force_refresh: bool,
    pub extra_paths: Vec<FilePath>,
    pub excluded_paths: Vec<FilePath>,
}

/// A path is another one than `path`.
pub open spec fn stays_beside(path: Seq<u8>) -> spec_fn(Seq<u8>) -> bool {
    |watched: Seq<u8>| !path::same_path(watched, path)
}

/// The paths that stay watched when `path` is not watched any more.
pub open spec fn still_watched(extra: Seq<Seq<u8>>, path: Seq<u8>) -> Seq<Seq<u8>> {
    extra.filter(stays_beside(path))
}

/// How a command is set up when it does not watch `path` any more.
pub open spec fn unwatches(before: NixCommand, path: FilePath, after: NixCommand) -> bool {
    &&& miss::spellings(after.extra_paths@) == still_watched(
        miss::spellings(before.extra_paths@),
        path@,
    )
    &&& after.excluded_paths@ == before.excluded_paths@.push(path)
    &&& after.enable_caching == before.enable_caching
    &&& after.force_refresh == before.force_refresh
}

/// What a command depends on: those among the reported inputs that matter to the
/// cache, and all watched paths.
pub open spec fn depends_on(command: NixCommand, ops: Seq<Op>, found: Dependencies) -> bool {
    &&& miss::spellings(found.sources@) == tracked_sources(
        ops,
        miss::spellings(command.excluded_paths@),
    ) + miss::spellings(command.extra_paths@)
    &&& text::texts_of(found.env_names@) == read_variables(ops)
}

impl NixCommand {
    /// A command that is cached and depends on no more than it reports.
    pub fn new() -> (result: NixCommand)
        ensures
            result.enable_caching,
            !result.force_refresh,
            result.extra_paths@ == Seq::<FilePath>::empty(),
            result.excluded_paths@ == Seq::<FilePath>::empty(),
    {
        NixCommand {
            enable_caching: true,
            force_refresh: false,
            extra_paths: Vec::new(),
            excluded_paths: Vec::new(),
        }
    }

    /// Watch additional paths for changes.
    ///
    /// WARN: Be careful watching generated files.
    /// External tools like direnv are triggered solely by the modification date and don't compare
    /// file contents.
    pub fn watch_path(&mut self, path: FilePath) -> (result: &mut NixCommand)
        ensures
            result.extra_paths@ == old(self).extra_paths@.push(path),
            result.excluded_paths == old(self).excluded_paths,
            result.enable_caching == old(self).enable_caching,
            result.force_refresh == old(self).force_refresh,
            *final(self) == *final(result),
    {
        self.extra_paths.push(path);
        self
    }

    /// Remove a path from being watched for changes.
    pub fn unwatch_path(&mut self, path: FilePath) -> (result: &mut NixCommand)
        ensures
            unwatches(*old(self), path, *result),
            *final(self) == *final(result),
    {
        let mut kept: Vec<FilePath> = Vec::new();
        let ghost extra = miss::spellings(self.extra_paths@);
        let ghost stays = stays_beside(path@);
        proof {
            reveal(Seq::filter);
        }
        assert(miss::spellings(kept@) =~= extra.take(0).filter(stays));
        let mut i: usize = 0;
        while i < self.extra_paths.len()
            invariant
                i <= self.extra_paths@.len(),
                *self == *old(self),
                extra == miss::spellings(self.extra_paths@),
                stays == stays_beside(path@),
                miss::spellings(kept@) == extra.take(i as int).filter(stays),
            decreases self.extra_paths@.len() - i,
        {
            proof {
                reveal(Seq::filter);
            }
            let ghost before = miss::spellings(kept@);
            let ghost watched = self.extra_paths@[i as int]@;
            assert(extra.take(i + 1).drop_last() =~= extra.take(i as int));
            assert(extra.take(i + 1).last() == watched);
            if !self.extra_paths[i].same(&path) {
                kept.push(self.extra_paths[i].clone());
                assert(miss::spellings(kept@) =~= before.push(watched));
            }
            i += 1;
        }
        assert(extra.take(i as int) =~= extra);
        self.extra_paths = kept;
        self.excluded_paths.push(path);
        self
    }

    /// Force re-evaluation of the command.
    pub fn force_refresh(&mut self) -> (result: &mut NixCommand)
        ensures
            *result == (NixCommand { force_refresh: true, ..*old(self) }),
            *final(self) == *final(result),
    {
        self.force_refresh = true;
        self
    }

    /// Enable or disable eval caching.
    pub fn enable_eval_cache(&mut self, enable: bool) -> (result: &mut NixCommand)
        ensures
            *result == (NixCommand { enable_caching: enable, ..*old(self) }),
            *final(self) == *final(result),
    {
        self.enable_caching = enable;
        self
    }

    /// Whether the cache is asked before the command is run.
    pub fn checks_cache(&self) -> (result: bool)
        ensures
            result == (self.enable_caching && !self.force_refresh),
    {
        self.enable_caching && !self.force_refresh
    }

    /// The arguments with which a command reports what it does.
    pub fn reporting_args() -> (result: Vec<String>)
        ensures
            text::texts_of(result@) == seq!["-vv"@, "--log-format"@, "internal-json"@],
    {
        let mut result: Vec<String> = Vec::new();
        result.push("-vv".to_owned());
        result.push("--log-format".to_owned());
        result.push("internal-json".to_owned());
        assert(text::texts_of(result@) =~= seq!["-vv"@, "--log-format"@, "internal-json"@]);
        result
    }

    /// The level of the messages that are meant to be shown.
    pub fn shown_level() -> (result: Verbosity)
        ensures
            result == Verbosity::Info,
    {
        Verbosity::Info
    }

    fn tracks(&self, source: &FilePath) -> (result: bool)
        ensures
            result == is_tracked(source@, miss::spellings(self.excluded_paths@)),
    {
        if !source.starts_with(&FilePath::from_text("/")) || source.starts_with(
            &FilePath::from_text("/nix/store"),
        ) {
            return false;
        }
        let ghost excluded = miss::spellings(self.excluded_paths@);
        let mut i: usize = 0;
        while i < self.excluded_paths.len()
            invariant
                i <= self.excluded_paths@.len(),
                excluded == miss::spellings(self.excluded_paths@),
                forall|j: int|
                    0 <= j < i ==> !path::path_starts_with(source@, #[trigger] excluded[j]),
            decreases self.excluded_paths@.len() - i,
        {
            assert(excluded[i as int] == self.excluded_paths@[i as int]@);
            if source.starts_with(&self.excluded_paths[i]) {
                return false;
            }
            i += 1;
        }
        true
    }

    /// The inputs that a command depends on: those among the reported ones that
    /// matter to the cache, and all watched paths.
    pub fn dependencies(&self, ops: Vec<Op>) -> (result: Dependencies)
        ensures
            depends_on(*self, ops@, result),
    {
        let mut sources: Vec<FilePath> = Vec::new();
        let mut env_names: Vec<String> = Vec::new();
        let ghost all = ops@;
        let ghost excluded = miss::spellings(self.excluded_paths@);
        assert(miss::spellings(sources@) =~= tracked_sources(all.take(0), excluded));
        assert(text::texts_of(env_names@) =~= read_variables(all.take(0)));
        for op in it: ops
            invariant
                it.seq() == all,
                excluded == miss::spellings(self.excluded_paths@),
                miss::spellings(sources@) == tracked_sources(all.take(it.index()), excluded),
                text::texts_of(env_names@) == read_variables(all.take(it.index())),
        {
            let ghost now = all.take(it.index() + 1);
            assert(now.drop_last() =~= all.take(it.index()));
            assert(now.last() == op);
            let ghost (old_sources, old_names) = (
                miss::spellings(sources@),
                text::texts_of(env_names@),
            );
            match op {
                Op::CopiedSource { source }
                | Op::EvaluatedFile { source }
                | Op::ReadFile { source }
                | Op::ReadDir { source }
                | Op::PathExists { source }
                | Op::TrackedPath { source } => {
                    // Filter out paths that don't impact caching
                    if self.tracks(&source) {
                        sources.push(source);
                        assert(miss::spellings(sources@) =~= old_sources.push(source@));
                    }
                },
                Op::GetEnv { name } => {
                    env_names.push(name);
                    assert(text::texts_of(env_names@) =~= old_names.push(name@));
                },
                Op::Other => {},
            }
        }
        assert(all.take(all.len() as int) =~= all);
        // Watch additional paths
        let ghost kept = miss::spellings(sources@);
        let ghost extra = miss::spellings(self.extra_paths@);
        let mut i: usize = 0;
        assert(kept =~= kept + extra.take(0));
        while i < self.extra_paths.len()
            invariant
                i <= self.extra_paths@.len(),
                extra == miss::spellings(self.extra_paths@),
                miss::spellings(sources@) == kept + extra.take(i as int),
            decreases self.extra_paths@.len() - i,
        {
            let ghost before = miss::spellings(sources@);
            sources.push(self.extra_paths[i].clone());
            assert(miss::spellings(sources@) =~= before.push(extra[i as int]));
            assert(before.push(extra[i as int]) =~= kept + extra.take(i + 1));
            i += 1;
        }
        assert(extra.take(i as int) =~= extra);
        Dependencies { sources, env_names }
    }

    /// The result of a run of the command, with the inputs that it depends on as
    /// they were found afterwards. A failed run has no inputs and is not recorded.
    pub fn output<H: Fn(&str) -> String>(
        &self,
        run: CommandRun,
        files: Vec<FileInputDesc>,
        envs: Vec<EnvInputDesc>,
        cache_miss_reason: Option<CacheMissReason>,
        hash: &H,
    ) -> (result: FinishedRun)
        requires
            digest::hashes_any_text(*hash),
        ensures
            finishes(
                *hash,
                self.enable_caching,
                run,
                query::file_inputs(files@) + env_inputs(envs@),
                cache_miss_reason,
                result,
            ),
            result.output.status == run.status,
            result.output.stdout@ == run.stdout@,
            result.output.stderr@ == run.stderr@,
            !result.output.cache_hit,
            run.status.raw != 0 ==> result.record is None && result.output.inputs@.len() == 0,
            run.status.raw == 0 ==> (result.record is Some <==> self.enable_caching),
            cache_miss_reason is Some <==> result.output.cache_miss_reason is Some,
    {
        if !run.status.success() {
            let output = Output {
                status: run.status,
                stdout: run.stdout,
                stderr: run.stderr,
                inputs: Vec::new(),
                cache_hit: false,
                cache_miss_reason,
            };
            assert(output@ =~= failed_output(run, cache_miss_reason));
            return FinishedRun { output, record: None };
        }
        let mut inputs = gather_inputs(files, envs);
        normalise(&mut inputs);
        let record = if self.enable_caching {
            Some(Input::compute_input_hash(inputs.as_slice(), hash))
        } else {
            None
        };
        let ghost models = input::views(inputs@);
        let output = Output {
            status: run.status,
            stdout: run.stdout,
            stderr: run.stderr,
            inputs,
            cache_hit: false,
            cache_miss_reason,
        };
        assert(output@ =~= fresh_output(run, models, cache_miss_reason));
        FinishedRun { output, record }
    }
}

fn gather_inputs(files: Vec<FileInputDesc>, envs: Vec<EnvInputDesc>) -> (result: Vec<Input>)
    ensures
        input::views(result@) == query::file_inputs(files@) + env_inputs(envs@),
{
    let ghost expected_files = query::file_inputs(files@);
    let ghost expected_envs = env_inputs(envs@);
    let mut inputs: Vec<Input> = Vec::new();
    assert(input::views(inputs@) =~= expected_files.take(0));
    for file in it: files
        invariant
            query::file_inputs(it.seq()) == expected_files,
            input::views(inputs@) == expected_files.take(it.index()),
    {
        let ghost before = input::views(inputs@);
        assert(expected_files[it.index()] == InputView::File(file@));
        inputs.push(Input::File(file));
        assert(input::views(inputs@) =~= before.push(expected_files[it.index()]));
        assert(input::views(inputs@) =~= expected_files.take(it.index() + 1));
    }
    assert(input::views(inputs@) =~= expected_files + expected_envs.take(0));
    for env in it: envs
        invariant
            env_inputs(it.seq()) == expected_envs,
            input::views(inputs@) == expected_files + expected_envs.take(it.index()),
    {
        let ghost before = input::views(inputs@);
        assert(expected_envs[it.index()] == InputView::Env(env@));
        inputs.push(Input::Env(env));
        assert(input::views(inputs@) =~= before.push(expected_envs[it.index()]));
        assert(input::views(inputs@) =~= expected_files + expected_envs.take(it.index() + 1));
    }
    assert(expected_envs.take(expected_envs.len() as int) =~= expected_envs);
    inputs
}

/// Whether the name of a program is that of one that supports the flags required
/// for caching.
pub fn names_nix(program: &str) -> (result: bool)
    ensures
        result == "nix"@.is_suffix_of(program@),
{
    proof {
        reveal_strlit("nix");
    }
    let n: usize = program.unicode_len();
    let result = n >= 3 && program.get_char(n - 3) == 'n' && program.get_char(n - 2) == 'i'
        && program.get_char(n - 1) == 'x';
    assert(result == "nix"@.is_suffix_of(program@)) by {
        if n >= 3 {
            let tail = program@.subrange(n - 3, n as int);
            assert(tail[0] == program@[n - 3] && tail[1] == program@[n - 2] && tail[2]
                == program@[n - 1]);
            if result {
                assert(tail =~= "nix"@);
            }
        }
    }
    result
}

/// Check whether the command supports the flags required for caching, by the path
/// of its program.
pub fn supports_eval_caching(program: &FilePath) -> (result: bool)
    ensures
        result == "nix"@.is_suffix_of(text::utf8_lossy(program@)),
{
    names_nix(program.display().as_str())
}

} // verus!
