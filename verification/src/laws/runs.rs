//! What is made of a run, and what a command depends on.
use crate::command::{self, CommandRun, Dependencies, FinishedRun, NixCommand, Op};
use crate::digest;
use crate::input::{self, InputView};
use crate::miss::{self, CacheMissReason};
use crate::normal;
use crate::output;
use crate::path::{self, FilePath};
use crate::text;
use vstd::prelude::*;

verus! {

/// Whatever becomes of a run, what it wrote, how it ended and why the cache was not
/// used are passed on, and the output does not come from the cache.
pub proof fn what_a_run_gave_is_passed_on<H: Fn(&str) -> String>(
    hash: H,
    enable_caching: bool,
    run: CommandRun,
    found: Seq<InputView>,
    reason: Option<CacheMissReason>,
    finished: FinishedRun,
)
    requires
        command::finishes(hash, enable_caching, run, found, reason, finished),
    ensures
        finished.output.status == run.status,
        finished.output.stdout@ == run.stdout@,
        finished.output.stderr@ == run.stderr@,
        !finished.output.cache_hit,
        reason is None ==> finished.output.cache_miss_reason is None,
        reason matches Some(given) ==> finished.output.cache_miss_reason matches Some(kept)
            && kept@ == given@,
{
    assert(finished.output@.cache_miss_reason == output::reason_view(reason));
}

/// Of a run that failed, with whatever code, nothing is recorded, and its output has no
/// inputs.
pub proof fn failed_runs_are_not_recorded<H: Fn(&str) -> String>(
    hash: H,
    enable_caching: bool,
    run: CommandRun,
    found: Seq<InputView>,
    reason: Option<CacheMissReason>,
    finished: FinishedRun,
)
    requires
        command::finishes(hash, enable_caching, run, found, reason, finished),
        run.status.raw != 0,
    ensures
        finished.record is None,
        finished.output.inputs@.len() == 0,
{
    assert(finished.output@.inputs.len() == finished.output.inputs@.len());
}

/// A run that succeeded is recorded if and only if caching is enabled, under the
/// digest of its inputs' digests in a row; and its output has the inputs in order and
/// without repetitions.
pub proof fn successful_runs_are_recorded<H: Fn(&str) -> String>(
    hash: H,
    digest: spec_fn(Seq<char>) -> Seq<char>,
    enable_caching: bool,
    run: CommandRun,
    found: Seq<InputView>,
    reason: Option<CacheMissReason>,
    finished: FinishedRun,
)
    requires
        digest::computes(hash, digest),
        command::finishes(hash, enable_caching, run, found, reason, finished),
        run.status.raw == 0,
    ensures
        finished.record is Some <==> enable_caching,
        finished.record matches Some(recorded) ==> recorded@ == digest(
            input::hash_source(normal::deduped(normal::sorted(found))),
        ),
        finished.output.inputs@.len() == normal::deduped(normal::sorted(found)).len(),
        forall|i: int|
            0 <= i < finished.output.inputs@.len() ==> (#[trigger] finished.output.inputs@[i])@
                == normal::deduped(normal::sorted(found))[i],
{
    let inputs = normal::normalised(found);
    assert(finished.output@.inputs == inputs);
    assert forall|i: int| 0 <= i < finished.output.inputs@.len() implies (
    #[trigger] finished.output.inputs@[i])@ == normal::deduped(normal::sorted(found))[i] by {
        assert(input::views(finished.output.inputs@)[i] == finished.output.inputs@[i]@);
    }
    if let Some(recorded) = finished.record {
        digest::hashes_to_digest(hash, digest, input::hash_source(inputs), recorded@);
    }
}

/// The sources of a command are the reported paths that matter to the cache and then
/// the watched paths, and its variables are those that it reported to have read.
pub proof fn reported_inputs_and_watched_paths_are_dependencies(
    command: NixCommand,
    ops: Seq<Op>,
    found: Dependencies,
)
    requires
        command::depends_on(command, ops, found),
    ensures
        ({
            let reported = command::tracked_sources(
                ops,
                miss::spellings(command.excluded_paths@),
            );
            &&& found.sources@.len() == reported.len() + command.extra_paths@.len()
            &&& forall|i: int|
                0 <= i < reported.len() ==> (#[trigger] found.sources@[i]).bytes@ == reported[i]
            &&& forall|i: int|
                reported.len() <= i < found.sources@.len() ==> (
                #[trigger] found.sources@[i]).bytes@ == command.extra_paths@[i
                    - reported.len()].bytes@
            &&& found.env_names@.len() == command::read_variables(ops).len()
            &&& forall|i: int|
                0 <= i < found.env_names@.len() ==> (#[trigger] found.env_names@[i])@
                    == command::read_variables(ops)[i]
        }),
{
    let reported = command::tracked_sources(ops, miss::spellings(command.excluded_paths@));
    let watched = miss::spellings(command.extra_paths@);
    let all = miss::spellings(found.sources@);
    assert(all == reported + watched);
    assert(all.len() == found.sources@.len());
    assert(text::texts_of(found.env_names@).len() == found.env_names@.len());
    assert forall|i: int| 0 <= i < found.sources@.len() implies (
    #[trigger] found.sources@[i]).bytes@ == all[i] by {}
    assert forall|i: int| 0 <= i < found.env_names@.len() implies (
    #[trigger] found.env_names@[i])@ == command::read_variables(ops)[i] by {
        assert(text::texts_of(found.env_names@)[i] == found.env_names@[i]@);
    }
    assert forall|i: int| reported.len() <= i < found.sources@.len() implies (
    #[trigger] found.sources@[i]).bytes@ == command.extra_paths@[i - reported.len()].bytes@ by {
        assert(all[i] == watched[i - reported.len()]);
    }
}

/// One more operation of any kind on a path that matters to the cache is one more
/// source.
pub proof fn one_more_operation_is_one_more_source(
    ops: Seq<Op>,
    op: Op,
    source: FilePath,
    excluded: Seq<Seq<u8>>,
)
    requires
        command::is_tracked(source.bytes@, excluded),
        op == (Op::CopiedSource { source }) || op == (Op::EvaluatedFile { source }) || op == (
        Op::ReadFile { source }) || op == (Op::ReadDir { source }) || op == (Op::PathExists {
            source,
        }) || op == (Op::TrackedPath { source }),
    ensures
        command::tracked_sources(ops.push(op), excluded) == command::tracked_sources(
            ops,
            excluded,
        ).push(source.bytes@),
        command::read_variables(ops.push(op)) == command::read_variables(ops),
{
    assert(ops.push(op).drop_last() =~= ops);
}

/// Unwatching a path keeps every other watched path, in order, and excludes the path
/// from what is reported besides what was excluded before.
pub proof fn unwatching_keeps_the_other_paths(
    before: NixCommand,
    path: FilePath,
    after: NixCommand,
    extra: Seq<Seq<u8>>,
    more: Seq<u8>,
    gone: Seq<u8>,
)
    requires
        command::unwatches(before, path, after),
    ensures
        after.excluded_paths@ == before.excluded_paths@.push(path),
        after.enable_caching == before.enable_caching,
        after.force_refresh == before.force_refresh,
        miss::spellings(after.extra_paths@) == command::still_watched(
            miss::spellings(before.extra_paths@),
            path.bytes@,
        ),
        path::components(more) != path::components(gone) ==> command::still_watched(
            extra.push(more),
            gone,
        ) == command::still_watched(extra, gone).push(more),
        path::components(more) == path::components(gone) ==> command::still_watched(
            extra.push(more),
            gone,
        ) == command::still_watched(extra, gone),
        command::still_watched(Seq::empty(), gone) == Seq::<Seq<u8>>::empty(),
{
    reveal(Seq::filter);
    assert(extra.push(more).drop_last() =~= extra);
}

} // verus!
