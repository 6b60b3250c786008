//! What a lookup answers, case by case.
use crate::digest;
use crate::input::{self, Input, InputView};
use crate::laws::{explanation, lists};
use crate::miss::{self, CacheMissReason};
use crate::normal;
use crate::order::Comparison;
use crate::query::{
    self, CacheCheckResult, CacheQuery, CachedCommand, CachedEntry, Checked, QueryConclusion, States,
};
use crate::table;
use vstd::prelude::*;

verus! {

/// The recorded inputs of a command are those of all its rows, files first.
pub proof fn all_rows_are_recorded_inputs(entry: CachedEntry)
    ensures
        query::recorded_inputs(entry).len() == entry.files@.len() + entry.envs@.len(),
        forall|i: int|
            #![trigger query::recorded_inputs(entry)[i]]
            0 <= i < entry.files@.len() ==> (query::recorded_inputs(entry)[i] matches InputView::File(
                file,
            ) && file.path == entry.files@[i].path.bytes@ && file.is_directory
                == entry.files@[i].is_directory && file.modified_at == entry.files@[i].modified_at
                && file.content_hash == (if entry.files@[i].content_hash@.len() == 0 {
                None
            } else {
                Some(entry.files@[i].content_hash@)
            })),
        forall|i: int|
            #![trigger query::recorded_inputs(entry)[i]]
            entry.files@.len() <= i < entry.files@.len() + entry.envs@.len() ==> (
            query::recorded_inputs(entry)[i] matches InputView::Env(env) && env.name
                == entry.envs@[i - entry.files@.len()].name@ && env.content_hash == (if entry.envs@[i
                - entry.files@.len()].content_hash@.len() == 0 {
                None
            } else {
                Some(entry.envs@[i - entry.files@.len()].content_hash@)
            })),
{
}

/// The database has nothing to say of a command that it does not hold.
pub proof fn unknown_commands_are_not_cached<H: Fn(&str) -> String>(
    hash: H,
    extra: Seq<InputView>,
    query: CacheQuery,
)
    requires
        query::database_tells(hash, None, extra, query),
    ensures
        query == CacheQuery::Miss(CacheMissReason::NotCached),
{
}

/// A command that the database holds goes on to the checks if and only if the digest
/// of its current inputs is the recorded one. All inputs are then checked: the
/// recorded ones and the watched files, in order and without repetitions. If the
/// digest is another one, how the recorded and the current inputs differ is the
/// reason.
pub proof fn the_digest_of_the_inputs_decides<H: Fn(&str) -> String>(
    hash: H,
    digest: spec_fn(Seq<char>) -> Seq<char>,
    entry: CachedEntry,
    extra: Seq<InputView>,
    query: CacheQuery,
)
    requires
        digest::computes(hash, digest),
        query::database_tells(hash, Some(entry), extra, query),
    ensures
        ({
            let current = normal::deduped(normal::sorted(query::recorded_inputs(entry) + extra));
            let same = digest(input::hash_source(current)) == entry.command.input_hash@;
            &&& query is CheckInputs <==> same
            &&& query matches CacheQuery::CheckInputs { command, inputs } ==> {
                &&& command == entry.command
                &&& inputs@.len() == current.len()
                &&& forall|i: int|
                    0 <= i < inputs@.len() ==> (#[trigger] inputs@[i])@ == current[i]
            }
            &&& query matches CacheQuery::Miss(reason) ==> miss::explains(
                reason@,
                table::by_identity(query::recorded_inputs(entry)),
                table::by_identity(current),
            )
        }),
{
    let current = query::current_inputs(query::recorded_inputs(entry), extra);
    let new_hash = choose|new_hash: Seq<char>|
        {
            &&& #[trigger] digest::hashes_to(hash, input::hash_source(current), new_hash)
            &&& query::query_step(query, entry, current, new_hash)
        };
    digest::hashes_to_digest(hash, digest, input::hash_source(current), new_hash);
    if let CacheQuery::CheckInputs { command: _, inputs } = query {
        assert(input::views(inputs@).len() == inputs@.len());
        assert forall|i: int| 0 <= i < inputs@.len() implies (#[trigger] inputs@[i])@
            == current[i] by {
            assert(input::views(inputs@)[i] == inputs@[i]@);
        }
    }
}

/// Every state that was told is held against the input at its place.
pub proof fn states_are_those_of_their_inputs(inputs: Seq<Input>, states: States)
    ensures
        query::checked(inputs, states).len() == states@.len(),
        forall|i: int|
            0 <= i < states@.len() ==> (#[trigger] query::checked(inputs, states)[i]).input
                == inputs[states@[i].0 as int]@,
        forall|i: int|
            0 <= i < states@.len() ==> (#[trigger] query::checked(inputs, states)[i]).state == (
            match states@[i].1 {
                Ok(state) => Some(state@),
                Err(_) => None,
            }),
        query::states_fit(inputs, states) <==> forall|i: int|
            0 <= i < states@.len() ==> (#[trigger] states@[i]).0 < inputs.len(),
{
}

/// A lookup ends with the cached output if and only if the states of the inputs give no
/// reason against it; the output is then what the database holds, from a command that
/// succeeded, with the inputs. If they give one, it ends with that.
pub proof fn the_states_of_the_inputs_decide(
    conclusion: QueryConclusion,
    command: CachedCommand,
    inputs: Seq<InputView>,
    found: Seq<Checked>,
)
    requires
        query::concludes(conclusion, command, inputs, found),
    ensures
        conclusion.result is Hit <==> query::states_reason(found) is None,
        conclusion.result matches CacheCheckResult::Miss(reason) ==> query::states_reason(found)
            == Some(reason@),
        conclusion.result matches CacheCheckResult::Hit(output) ==> {
            &&& output.stdout@ == command.output@
            &&& output.stderr@.len() == 0
            &&& output.status.raw == 0
            &&& output.cache_hit
            &&& output.cache_miss_reason is None
            &&& output.inputs@.len() == inputs.len()
            &&& forall|i: int|
                0 <= i < inputs.len() ==> (#[trigger] output.inputs@[i])@ == inputs[i]
        },
{
    if let CacheCheckResult::Hit(output) = conclusion.result {
        assert(output@ == query::cached_output(command, inputs));
        assert(input::views(output.inputs@) == inputs);
        assert(input::views(output.inputs@).len() == output.inputs@.len());
        assert forall|i: int| 0 <= i < inputs.len() implies (#[trigger] output.inputs@[i])@
            == inputs[i] by {
            assert(input::views(output.inputs@)[i] == output.inputs@[i]@);
        }
        assert(output@.cache_miss_reason is None);
    }
}

/// Whatever a lookup ends with, the files that were only touched are to be recorded
/// with their new times, each in its turn.
pub proof fn touched_files_are_to_be_recorded(
    conclusion: QueryConclusion,
    command: CachedCommand,
    inputs: Seq<InputView>,
    found: Seq<Checked>,
)
    requires
        query::concludes(conclusion, command, inputs, found),
    ensures
        conclusion.updates@.len() == query::touched_files(found).len(),
        forall|i: int|
            0 <= i < conclusion.updates@.len() ==> (
                (#[trigger] conclusion.updates@[i]).path.bytes@,
                conclusion.updates@[i].modified_at,
            ) == query::touched_files(found)[i],
{
    assert(query::updates_of(conclusion.updates@).len() == conclusion.updates@.len());
    assert forall|i: int| 0 <= i < conclusion.updates@.len() implies (
        (#[trigger] conclusion.updates@[i]).path.bytes@,
        conclusion.updates@[i].modified_at,
    ) == query::touched_files(found)[i] by {
        assert(query::updates_of(conclusion.updates@)[i] == (
            conclusion.updates@[i].path@,
            conclusion.updates@[i].modified_at,
        ));
    }
}

proof fn inserting_lengthens(inputs: Seq<InputView>, x: InputView, digest: Seq<char>)
    requires
        x.content_hash() == Some(digest),
        forall|i: int| 0 <= i < inputs.len() ==> (#[trigger] inputs[i]).key() != x.key(),
    ensures
        input::hash_source(normal::deduped(normal::inserted(inputs, x))).len()
            >= input::hash_source(normal::deduped(inputs)).len() + digest.len(),
        normal::inserted(inputs, x).len() == inputs.len() + 1,
        normal::inserted(inputs, x).last() == x || inputs.len() > 0 && normal::inserted(
            inputs,
            x,
        ).last() == inputs.last(),
    decreases inputs.len(),
{
    if inputs.len() == 0 {
        assert(inputs.push(x) =~= seq![x]);
        lists::only_repetitions_are_dropped(inputs, x);
        lists::one_input_is_hashed_by_its_digest(x);
        assert(normal::deduped(inputs) =~= Seq::empty());
    } else if input::input_order(inputs.last(), x) != Comparison::Greater {
        assert(inputs[inputs.len() - 1].key() != x.key());
        lists::only_repetitions_are_dropped(inputs, x);
        let rest = normal::deduped(inputs);
        assert(rest.push(x) =~= rest + seq![x]);
        lists::all_inputs_are_hashed(rest, seq![x]);
        lists::one_input_is_hashed_by_its_digest(x);
    } else {
        let (front, last) = (inputs.drop_last(), inputs.last());
        let grown = normal::inserted(front, x);
        assert forall|i: int| 0 <= i < front.len() implies (#[trigger] front[i]).key()
            != x.key() by {
            assert(inputs[i].key() != x.key());
        }
        assert(inputs[inputs.len() - 1].key() != x.key());
        inserting_lengthens(front, x, digest);
        assert(inputs =~= front.push(last));
        lists::only_repetitions_are_dropped(grown, last);
        lists::only_repetitions_are_dropped(front, last);
        let (before, after) = (normal::deduped(front), normal::deduped(grown));
        assert(before.push(last) =~= before + seq![last]);
        assert(after.push(last) =~= after + seq![last]);
        lists::all_inputs_are_hashed(before, seq![last]);
        lists::all_inputs_are_hashed(after, seq![last]);
        if front.len() == 0 {
            assert(inputs =~= seq![last]);
            assert(before =~= Seq::empty());
            assert(before + seq![last] =~= seq![last]);
        }
    }
}

/// A file or directory that was not recorded and is watched now rules the cached output
/// out, if it has a digest and different texts have different digests; and the reason
/// is that files were modified.
pub proof fn newly_watched_files_rule_out<H: Fn(&str) -> String>(
    hash: H,
    digest: spec_fn(Seq<char>) -> Seq<char>,
    entry: CachedEntry,
    x: InputView,
    contents: Seq<char>,
    query: CacheQuery,
)
    requires
        digest::computes(hash, digest),
        forall|a: Seq<char>, b: Seq<char>| a != b ==> #[trigger] digest(a) != #[trigger] digest(b),
        entry.command.input_hash@ == digest(
            input::hash_source(normal::normalised(query::recorded_inputs(entry))),
        ),
        x matches InputView::File(file) && file.content_hash == Some(contents),
        contents.len() > 0,
        forall|i: int|
            0 <= i < query::recorded_inputs(entry).len() ==> (
            #[trigger] query::recorded_inputs(entry)[i]).key() != x.key(),
        query::database_tells(hash, Some(entry), seq![x], query),
    ensures
        query matches CacheQuery::Miss(reason) && reason@ is FilesModified,
{
    let old = query::recorded_inputs(entry);
    let all = old + seq![x];
    let list = normal::sorted(old);
    assert(all.drop_last() =~= old);
    assert(all.last() == x);
    normal::sorted_is_in_order(old);
    assert forall|i: int| 0 <= i < list.len() implies (#[trigger] list[i]).key() != x.key() by {
        assert(list.contains(list[i]));
        normal::same_up_to_order_contains(list, old, list[i]);
        let k = choose|k: int| 0 <= k < old.len() && old[k] == list[i];
        assert(old[k].key() != x.key());
    }
    inserting_lengthens(list, x, contents);
    the_digest_of_the_inputs_decides(hash, digest, entry, seq![x], query);
    let current = normal::deduped(normal::sorted(all));
    assert(input::hash_source(current) != input::hash_source(normal::normalised(old)));
    let (before, after) = (table::by_identity(old), table::by_identity(current));
    normal::sorted_is_in_order(all);
    assert(all[old.len() as int] == x);
    normal::same_up_to_order_contains(all, normal::sorted(all), x);
    let i = choose|i: int|
        0 <= i < normal::sorted(all).len() && normal::sorted(all)[i] == x;
    assert(normal::sorted(all)[i].key() == x.key());
    explanation::known_inputs_occur(normal::sorted(all), x.key());
    explanation::repetitions_tell_nothing(normal::sorted(all));
    explanation::known_inputs_occur(old, x.key());
    assert(miss::differs(after, before, miss::Difference::Absent, x.key()));
}

} // verus!
