//! What holds of the inputs that a command is found to depend on.
use crate::command::{self, Dependencies, NixCommand, Op, OpView};
use crate::miss;
use crate::path::{self, FilePath};
use vstd::prelude::*;

verus! {

/// The command reported to have used this path.
pub open spec fn reports_source(ops: Seq<Op>, source: Seq<u8>) -> bool {
    exists|i: int| 0 <= i < ops.len() && (#[trigger] ops[i])@ == OpView::Source(source)
}

/// The command reported to have read this variable.
pub open spec fn reports_variable(ops: Seq<Op>, name: Seq<char>) -> bool {
    exists|i: int| 0 <= i < ops.len() && (#[trigger] ops[i])@ == OpView::GetEnv(name)
}

/// A command depends on a path by what it reported if and only if it reported to
/// have used the path and the path matters to the cache.
pub proof fn reported_paths_are_filtered(ops: Seq<Op>, excluded: Seq<Seq<u8>>, source: Seq<u8>)
    ensures
        command::tracked_sources(ops, excluded).contains(source) <==> reports_source(ops, source)
            && command::is_tracked(source, excluded),
    decreases ops.len(),
{
    let all = command::tracked_sources(ops, excluded);
    if ops.len() > 0 {
        let front = ops.drop_last();
        let rest = command::tracked_sources(front, excluded);
        reported_paths_are_filtered(front, excluded, source);
        if all.contains(source) {
            let k = choose|k: int| 0 <= k < all.len() && all[k] == source;
            if k < rest.len() {
                assert(rest[k] == source);
                let i = choose|i: int|
                    0 <= i < front.len() && (#[trigger] front[i])@ == OpView::Source(source);
                assert(ops[i]@ == OpView::Source(source));
            } else {
                assert(ops[ops.len() - 1]@ == OpView::Source(source));
            }
        }
        if reports_source(ops, source) && command::is_tracked(source, excluded) {
            let i = choose|i: int|
                0 <= i < ops.len() && (#[trigger] ops[i])@ == OpView::Source(source);
            if i < front.len() {
                assert(front[i]@ == OpView::Source(source));
                let k = choose|k: int| 0 <= k < rest.len() && rest[k] == source;
                assert(all[k] == source);
            } else {
                assert(all[all.len() - 1] == source);
            }
        }
    }
}

/// A command depends on every variable that it reported to have read, and on no
/// other.
pub proof fn reported_variables_are_kept(ops: Seq<Op>, name: Seq<char>)
    ensures
        command::read_variables(ops).contains(name) <==> reports_variable(ops, name),
    decreases ops.len(),
{
    let all = command::read_variables(ops);
    if ops.len() > 0 {
        let front = ops.drop_last();
        let rest = command::read_variables(front);
        reported_variables_are_kept(front, name);
        if all.contains(name) {
            let k = choose|k: int| 0 <= k < all.len() && all[k] == name;
            if k < rest.len() {
                assert(rest[k] == name);
                let i = choose|i: int|
                    0 <= i < front.len() && (#[trigger] front[i])@ == OpView::GetEnv(name);
                assert(ops[i]@ == OpView::GetEnv(name));
            } else {
                assert(ops[ops.len() - 1]@ == OpView::GetEnv(name));
            }
        }
        if reports_variable(ops, name) {
            let i = choose|i: int|
                0 <= i < ops.len() && (#[trigger] ops[i])@ == OpView::GetEnv(name);
            if i < front.len() {
                assert(front[i]@ == OpView::GetEnv(name));
                let k = choose|k: int| 0 <= k < rest.len() && rest[k] == name;
                assert(all[k] == name);
            } else {
                assert(all[all.len() - 1] == name);
            }
        }
    }
}

/// A command that was told not to watch a path any more does not depend on it,
/// whether it was watched before or the command reported to have used it. Nor does
/// it depend on anything below the path because it reported to have used that.
pub proof fn unwatched_paths_are_no_dependencies(
    before: NixCommand,
    path: FilePath,
    after: NixCommand,
    ops: Seq<Op>,
    found: Dependencies,
)
    requires
        command::unwatches(before, path, after),
        command::depends_on(after, ops, found),
    ensures
        forall|i: int|
            0 <= i < found.sources@.len() ==> !path::same_path(
                (#[trigger] found.sources@[i])@,
                path@,
            ),
        forall|source: Seq<u8>|
            path::path_starts_with(source, path@) ==> !#[trigger] command::tracked_sources(
                ops,
                miss::spellings(after.excluded_paths@),
            ).contains(source),
{
    let excluded = miss::spellings(after.excluded_paths@);
    let reported = command::tracked_sources(ops, excluded);
    let watched = miss::spellings(before.extra_paths@);
    let stays = command::stays_beside(path@);
    let all = miss::spellings(found.sources@);
    assert(all == reported + watched.filter(stays));
    assert(all.len() == found.sources@.len());
    let last = after.excluded_paths@.len() - 1;
    assert(excluded[last] == path@);
    assert forall|source: Seq<u8>| path::path_starts_with(source, path@) implies !#[trigger]
    reported.contains(source) by {
        reported_paths_are_filtered(ops, excluded, source);
    }
    assert forall|i: int| 0 <= i < found.sources@.len() implies !path::same_path(
        (#[trigger] found.sources@[i])@,
        path@,
    ) by {
        let source = all[i];
        assert(source == found.sources@[i]@);
        if i < reported.len() {
            assert(reported.contains(reported[i]));
        } else {
            let k = i - reported.len();
            assert(source == watched.filter(stays)[k]);
            watched.lemma_filter_pred(stays, k);
        }
    }
}

/// A command depends on every path that it watches, whatever it reported.
pub proof fn watched_paths_are_dependencies(
    command: NixCommand,
    ops: Seq<Op>,
    found: Dependencies,
    i: int,
)
    requires
        command::depends_on(command, ops, found),
        0 <= i < command.extra_paths@.len(),
    ensures
        miss::spellings(found.sources@).contains(command.extra_paths@[i]@),
{
    let reported = command::tracked_sources(ops, miss::spellings(command.excluded_paths@));
    assert(miss::spellings(found.sources@)[reported.len() + i] == command.extra_paths@[i]@);
}

} // verus!
