//! What holds of looking a command up.
use crate::command::{self, CommandRun, FinishedRun};
use crate::digest;
use crate::input::{self, InputView};
use crate::laws::{checks, normal_form};
use crate::miss::CacheMissReason;
use crate::normal;
use crate::order::Comparison;
use crate::query::{
    self, CacheCheckResult, CacheQuery, CachedEntry, Change, Checked, QueryConclusion,
};
use crate::state::{self, EnvLookup, FileMetadata, FileState, InputError, PathContents};
use crate::time::Timestamp;
use vstd::prelude::*;

verus! {

/// What an input adds to the text that is hashed.
spec fn trace(x: InputView) -> Seq<char> {
    match x.content_hash() {
        Some(digest) => digest,
        None => Seq::empty(),
    }
}

proof fn hash_of_deduped_push(inputs: Seq<InputView>, x: InputView)
    ensures
        input::hash_source(normal::deduped(inputs.push(x))) == input::hash_source(
            normal::deduped(inputs),
        ) + (if inputs.len() > 0 && input::same_contents(x, inputs.last()) {
            Seq::empty()
        } else {
            trace(x)
        }),
{
    let rest = normal::deduped(inputs);
    assert(inputs.push(x).drop_last() =~= inputs);
    if inputs.len() > 0 {
        normal_form::deduped_last(inputs);
        normal_form::same_contents_is_an_equivalence(x, rest.last(), inputs.last());
        normal_form::same_contents_is_an_equivalence(x, inputs.last(), rest.last());
    }
    assert(rest.push(x).drop_last() =~= rest);
    let source = input::hash_source(rest);
    assert(source + Seq::<char>::empty() =~= source);
}

/// Where `x` is put in, it comes to stand beside the input at `i` or beside inputs
/// that reach from there to it, and all of them are `x` with the same contents.
pub open spec fn recognised_at(inputs: Seq<InputView>, x: InputView, i: int) -> bool {
    &&& input::same_contents(inputs[i], x)
    &&& if input::input_order(inputs[i], x) != Comparison::Greater {
        forall|j: int|
            i < j < inputs.len() && input::input_order(#[trigger] inputs[j], x)
                != Comparison::Greater ==> input::same_contents(inputs[j], x)
    } else {
        forall|j: int|
            0 <= j < i && input::input_order(#[trigger] inputs[j], x) == Comparison::Greater
                ==> input::same_contents(inputs[j], x)
    }
}

/// Where `x` is put into the ordered list, it comes to stand beside the same input
/// with the same contents.
pub open spec fn recognised(inputs: Seq<InputView>, x: InputView) -> bool {
    exists|i: int| 0 <= i < inputs.len() && #[trigger] recognised_at(inputs, x, i)
}

/// An ordered list that does not describe one input with different contents
/// recognises every input that it knows, whenever that was modified.
pub proof fn known_inputs_are_recognised(inputs: Seq<InputView>, x: InputView)
    requires
        normal::in_order(inputs),
        normal_form::consistent(inputs),
        normal_form::knows(inputs, x),
    ensures
        recognised(inputs, x),
{
    let i = choose|i: int| 0 <= i < inputs.len() && input::same_contents(#[trigger] inputs[i], x);
    normal_form::same_contents_is_an_equivalence(inputs[i], x, x);
    assert forall|j: int|
        0 <= j < inputs.len() && #[trigger] inputs[j].key() == x.key() implies input::same_contents(
        inputs[j],
        x,
    ) by {
        assert(inputs[i].key() == inputs[j].key());
        assert(input::same_contents(inputs[j], inputs[i]));
        normal_form::same_contents_is_an_equivalence(inputs[j], inputs[i], x);
    }
    if input::input_order(inputs[i], x) != Comparison::Greater {
        assert forall|j: int|
            i < j < inputs.len() && input::input_order(#[trigger] inputs[j], x)
                != Comparison::Greater implies input::same_contents(inputs[j], x) by {
            assert(input::input_order(inputs[i], inputs[j]) != Comparison::Greater);
            normal_form::squeezed(inputs[i], inputs[j], x);
        }
    } else {
        assert forall|j: int|
            0 <= j < i && input::input_order(#[trigger] inputs[j], x)
                == Comparison::Greater implies input::same_contents(inputs[j], x) by {
            assert(input::input_order(inputs[j], inputs[i]) != Comparison::Greater);
            normal::input_order_flips(inputs[j], x);
            normal_form::squeezed(x, inputs[j], inputs[i]);
        }
    }
    assert(recognised_at(inputs, x, i));
}

/// Putting an input that is recognised into an ordered list leaves the text that is
/// hashed as it is.
proof fn inserting_recognised(inputs: Seq<InputView>, x: InputView, i: int)
    requires
        normal::in_order(inputs),
        0 <= i < inputs.len(),
        recognised_at(inputs, x, i),
    ensures
        input::hash_source(normal::deduped(normal::inserted(inputs, x))) == input::hash_source(
            normal::deduped(inputs),
        ),
    decreases inputs.len(),
{
    let (front, last) = (inputs.drop_last(), inputs.last());
    let n = inputs.len() - 1;
    assert(inputs[n] == last);
    assert(inputs =~= front.push(last));
    normal_form::same_contents_is_an_equivalence(inputs[i], x, x);
    if input::input_order(last, x) != Comparison::Greater {
        if i < n {
            assert(input::input_order(inputs[i], inputs[n]) != Comparison::Greater);
            normal::input_order_chains(inputs[i], last, x);
        }
        assert(input::same_contents(last, x));
        normal_form::same_contents_is_an_equivalence(last, x, x);
        hash_of_deduped_push(inputs, x);
        let source = input::hash_source(normal::deduped(inputs));
        assert(source + Seq::<char>::empty() =~= source);
    } else {
        let grown = normal::inserted(front, x);
        normal::front_in_order(inputs);
        hash_of_deduped_push(grown, last);
        hash_of_deduped_push(front, last);
        if front.len() > 0 && input::input_order(front.last(), x) == Comparison::Greater {
            // The input goes in further down.
            let k = if i < n { i } else { n - 1 };
            assert(front[n - 1] == inputs[n - 1]);
            assert(recognised_at(front, x, k)) by {
                if i == n {
                    assert(input::same_contents(inputs[n - 1], x));
                }
                assert forall|j: int|
                    k < j < front.len() && input::input_order(inputs[i], x) != Comparison::Greater
                        && input::input_order(#[trigger] front[j], x)
                        != Comparison::Greater implies input::same_contents(front[j], x) by {
                    assert(inputs[j] == front[j]);
                }
                assert forall|j: int|
                    0 <= j < k && input::input_order(inputs[i], x) == Comparison::Greater
                        && input::input_order(#[trigger] front[j], x)
                        == Comparison::Greater implies input::same_contents(front[j], x) by {
                    assert(inputs[j] == front[j]);
                }
            }
            inserting_recognised(front, x, k);
            assert(grown.last() == front.last());
        } else {
            // The input goes in right before the last one.
            assert(grown =~= front.push(x));
            hash_of_deduped_push(front, x);
            if i == n {
                normal_form::same_contents_is_an_equivalence(last, x, x);
                if front.len() > 0 {
                    normal_form::same_contents_is_an_equivalence(last, x, front.last());
                    normal_form::same_contents_is_an_equivalence(x, last, front.last());
                }
                let source = input::hash_source(normal::deduped(grown));
                assert(source + Seq::<char>::empty() =~= source);
            } else {
                if i < n - 1 {
                    assert(input::input_order(inputs[i], inputs[n - 1]) != Comparison::Greater);
                    normal::input_order_chains(inputs[i], front.last(), x);
                }
                assert(front.last() == inputs[n - 1]);
                assert(input::same_contents(front.last(), x));
                normal_form::same_contents_is_an_equivalence(x, front.last(), last);
                normal_form::same_contents_is_an_equivalence(front.last(), x, last);
                normal_form::same_contents_is_an_equivalence(last, x, front.last());
                normal_form::same_contents_is_an_equivalence(last, front.last(), x);
                let source = input::hash_source(normal::deduped(front));
                assert(source + Seq::<char>::empty() =~= source);
            }
        }
    }
}

proof fn inserted_somewhere(inputs: Seq<InputView>, x: InputView) -> (at: int)
    ensures
        0 <= at <= inputs.len(),
        normal::inserted(inputs, x) == inputs.insert(at, x),
    decreases inputs.len(),
{
    if inputs.len() == 0 || input::input_order(inputs.last(), x) != Comparison::Greater {
        assert(inputs.push(x) =~= inputs.insert(inputs.len() as int, x));
        inputs.len() as int
    } else {
        let at = inserted_somewhere(inputs.drop_last(), x);
        assert(inputs.drop_last().insert(at, x).push(inputs.last()) =~= inputs.insert(at, x));
        at
    }
}

/// An input stays recognised when another one, or itself again, is put in.
proof fn recognised_beside(inputs: Seq<InputView>, y: InputView, x: InputView)
    requires
        normal::in_order(normal::inserted(inputs, y)),
        recognised(inputs, x),
        y.key() == x.key() ==> input::same_contents(y, x),
    ensures
        recognised(normal::inserted(inputs, y), x),
{
    let i = choose|i: int| 0 <= i < inputs.len() && #[trigger] recognised_at(inputs, x, i);
    let at = inserted_somewhere(inputs, y);
    let grown = inputs.insert(at, y);
    let k = if at <= i { i + 1 } else { i };
    assert(grown[k] == inputs[i]);
    normal_form::same_contents_is_an_equivalence(inputs[i], x, x);
    if input::input_order(inputs[i], x) != Comparison::Greater {
        assert forall|j: int|
            k < j < grown.len() && input::input_order(#[trigger] grown[j], x)
                != Comparison::Greater implies input::same_contents(grown[j], x) by {
            if j == at {
                assert(input::input_order(grown[k], grown[j]) != Comparison::Greater);
                normal_form::squeezed(grown[k], grown[j], x);
            } else {
                let m = if at < j { j - 1 } else { j };
                assert(grown[j] == inputs[m]);
            }
        }
    } else {
        assert forall|j: int|
            0 <= j < k && input::input_order(#[trigger] grown[j], x)
                == Comparison::Greater implies input::same_contents(grown[j], x) by {
            if j == at {
                assert(input::input_order(grown[j], grown[k]) != Comparison::Greater);
                normal::input_order_flips(grown[j], x);
                normal_form::squeezed(x, grown[j], grown[k]);
            } else {
                let m = if at < j { j - 1 } else { j };
                assert(grown[j] == inputs[m]);
            }
        }
    }
    assert(recognised_at(grown, x, k));
}

proof fn recognised_among(recorded: Seq<InputView>, extra: Seq<InputView>, x: InputView)
    requires
        normal::sorted(recorded) == recorded,
        recognised(recorded, x),
        forall|i: int|
            0 <= i < extra.len() && #[trigger] extra[i].key() == x.key() ==> input::same_contents(
                extra[i],
                x,
            ),
    ensures
        recognised(normal::sorted(recorded + extra), x),
    decreases extra.len(),
{
    if extra.len() == 0 {
        assert(recorded + extra =~= recorded);
    } else {
        let (front, y) = (extra.drop_last(), extra.last());
        assert forall|i: int|
            0 <= i < front.len() && #[trigger] front[i].key() == x.key() implies input::same_contents(
            front[i],
            x,
        ) by {
            assert(extra[i] == front[i]);
        }
        recognised_among(recorded, front, x);
        assert(extra[extra.len() - 1] == y);
        assert((recorded + extra).drop_last() =~= recorded + front);
        assert((recorded + extra).last() == y);
        normal::sorted_is_in_order(recorded + extra);
        recognised_beside(normal::sorted(recorded + front), y, x);
    }
}

proof fn adding_recognised(recorded: Seq<InputView>, extra: Seq<InputView>)
    requires
        normal::sorted(recorded) == recorded,
        normal_form::consistent(extra),
        forall|i: int| 0 <= i < extra.len() ==> recognised(recorded, #[trigger] extra[i]),
    ensures
        input::hash_source(normal::normalised(recorded + extra)) == input::hash_source(
            normal::normalised(recorded),
        ),
    decreases extra.len(),
{
    if extra.len() == 0 {
        assert(recorded + extra =~= recorded);
    } else {
        let (front, x) = (extra.drop_last(), extra.last());
        let n = extra.len() - 1;
        assert(extra[n] == x);
        assert forall|i: int| 0 <= i < front.len() implies recognised(
            recorded,
            #[trigger] front[i],
        ) by {
            assert(extra[i] == front[i]);
        }
        assert(normal_form::consistent(front)) by {
            assert forall|i: int, j: int|
                0 <= i < front.len() && 0 <= j < front.len() && #[trigger] front[i].key()
                    == #[trigger] front[j].key() implies input::same_contents(
                front[i],
                front[j],
            ) by {
                assert(extra[i].key() == extra[j].key());
            }
        }
        adding_recognised(recorded, front);
        assert forall|i: int|
            0 <= i < front.len() && #[trigger] front[i].key() == x.key() implies input::same_contents(
            front[i],
            x,
        ) by {
            assert(extra[i].key() == extra[n].key());
        }
        recognised_among(recorded, front, x);
        let list = normal::sorted(recorded + front);
        normal::sorted_is_in_order(recorded + front);
        let i = choose|i: int| 0 <= i < list.len() && #[trigger] recognised_at(list, x, i);
        inserting_recognised(list, x, i);
        assert((recorded + extra).drop_last() =~= recorded + front);
        assert((recorded + extra).last() == x);
    }
}

/// Files that are tracked beyond the recorded inputs change nothing about the
/// digest that stands for all of them, as long as the recorded inputs recognise
/// each of them. Nor does it matter in which order the inputs come out of the
/// database.
pub proof fn recognised_files_keep_the_digest(
    recorded: Seq<InputView>,
    old: Seq<InputView>,
    extra: Seq<InputView>,
)
    requires
        normal::normalised(recorded) == recorded,
        normal::same_up_to_order(old, recorded),
        normal_form::consistent(extra),
        forall|i: int| 0 <= i < extra.len() ==> recognised(recorded, #[trigger] extra[i]),
    ensures
        input::hash_source(query::current_inputs(old, extra)) == input::hash_source(recorded),
{
    normal_form::normal_form_is_stable(recorded);
    normal::sorted_is_in_order(recorded);
    normal::in_order_is_unique(normal::sorted(recorded), recorded);
    normal::sorted_is_in_order(old + extra);
    normal::sorted_is_in_order(recorded + extra);
    assert forall|x: InputView| #[trigger] normal::tied(normal::sorted(old + extra), x)
        == normal::tied(normal::sorted(recorded + extra), x) by {
        assert(normal::tied(normal::sorted(old + extra), x) == normal::tied(old + extra, x));
        assert(normal::tied(normal::sorted(recorded + extra), x) == normal::tied(
            recorded + extra,
            x,
        ));
        normal::tied_concat(old, extra, x);
        normal::tied_concat(recorded, extra, x);
        assert(normal::tied(old, x) == normal::tied(recorded, x));
    }
    normal::in_order_is_unique(normal::sorted(old + extra), normal::sorted(recorded + extra));
    adding_recognised(recorded, extra);
}

proof fn changed_iff(found: Seq<Checked>, change: Change)
    ensures
        changed_any(found, change) == (query::changed_files(found, change).len() > 0
            || query::changed_envs(found, change).len() > 0),
    decreases found.len(),
{
    if found.len() > 0 {
        let front = found.drop_last();
        changed_iff(front, change);
        if changed_any(front, change) {
            let i = choose|i: int|
                0 <= i < front.len() && query::is_changed(#[trigger] front[i], change);
            assert(query::is_changed(found[i], change));
        }
        if query::is_changed(found.last(), change) {
            assert(query::is_changed(found[found.len() - 1], change));
        }
        if changed_any(found, change) {
            let i = choose|i: int|
                0 <= i < found.len() && query::is_changed(#[trigger] found[i], change);
            if i < front.len() {
                assert(query::is_changed(front[i], change));
            }
        }
    }
}

/// Some input was found changed in this way.
pub open spec fn changed_any(found: Seq<Checked>, change: Change) -> bool {
    exists|i: int| 0 <= i < found.len() && query::is_changed(#[trigger] found[i], change)
}

/// The states of the inputs rule the cached output out if and only if some input
/// was found modified or removed.
pub proof fn only_changes_rule_out(found: Seq<Checked>)
    ensures
        query::states_reason(found) is Some <==> changed_any(found, Change::Modified)
            || changed_any(found, Change::Removed),
{
    changed_iff(found, Change::Modified);
    changed_iff(found, Change::Removed);
}

/// If a command has been run before and the inputs it depends on have not been
/// modified, the cached output is returned.
///
/// The command was run (`finished`) with inputs `found` and recorded (`entry`): the
/// database holds its output, the digest of its inputs, and the inputs themselves,
/// in any order that keeps those that are tied. It is looked up (`query`) with
/// `extra` tracked as well, of which the recorded inputs recognise each file, and no
/// input is found modified or removed (`conclusion`).
pub proof fn unmodified_inputs_give_the_cached_output<H: Fn(&str) -> String>(
    hash: H,
    digest: spec_fn(Seq<char>) -> Seq<char>,
    run: CommandRun,
    found: Seq<InputView>,
    reason: Option<CacheMissReason>,
    finished: FinishedRun,
    entry: CachedEntry,
    extra: Seq<InputView>,
    query: CacheQuery,
    states: Seq<Checked>,
    conclusion: QueryConclusion,
)
    requires
        digest::computes(hash, digest),
        command::finishes(hash, true, run, found, reason, finished),
        run.status.raw == 0,
        finished.record matches Some(input_hash) && entry.command.input_hash@ == input_hash@,
        entry.command.output@ == run.stdout@,
        normal::same_up_to_order(query::recorded_inputs(entry), finished.output@.inputs),
        normal_form::consistent(extra),
        forall|i: int|
            0 <= i < extra.len() ==> recognised(finished.output@.inputs, #[trigger] extra[i]),
        query::database_tells(hash, Some(entry), extra, query),
        !changed_any(states, Change::Modified),
        !changed_any(states, Change::Removed),
        query matches CacheQuery::CheckInputs { command, inputs } ==> query::concludes(
            conclusion,
            command,
            input::views(inputs@),
            states,
        ),
    ensures
        query is CheckInputs,
        conclusion.result matches CacheCheckResult::Hit(output) && output.cache_hit
            && output.stdout@ == run.stdout@ && output.status.raw == 0,
{
    let recorded = finished.output@.inputs;
    let current = query::current_inputs(query::recorded_inputs(entry), extra);
    normal_form::normal_form_is_stable(found);
    recognised_files_keep_the_digest(recorded, query::recorded_inputs(entry), extra);
    let new_hash = choose|new_hash: Seq<char>|
        {
            &&& #[trigger] digest::hashes_to(hash, input::hash_source(current), new_hash)
            &&& query::query_step(query, entry, current, new_hash)
        };
    digest::hashes_to_digest(hash, digest, input::hash_source(current), new_hash);
    digest::hashes_to_digest(
        hash,
        digest,
        input::hash_source(recorded),
        entry.command.input_hash@,
    );
    only_changes_rule_out(states);
    match conclusion.result {
        CacheCheckResult::Hit(output) => {
            match query {
                CacheQuery::CheckInputs { command, inputs } => {
                    assert(output@ == query::cached_output(command, input::views(inputs@)));
                },
                CacheQuery::Miss(_) => {},
            }
        },
        CacheCheckResult::Miss(_) => {},
    }
}

/// An input was checked while the system showed what is described.
pub open spec fn checked_unmodified<H: Fn(&str) -> String>(hash: H, found: Checked) -> bool {
    match found.input {
        InputView::File(file) => exists|metadata: Option<FileMetadata>, contents: PathContents|
            {
                &&& #[trigger] checks::file_checked(hash, file, metadata, contents, found.state)
                &&& checks::holds_what_it_held(hash, file, metadata, contents)
            },
        InputView::Env(env) => exists|
            value: EnvLookup,
            now: Timestamp,
            result: Result<FileState, InputError>,
        |
            {
                &&& #[trigger] state::env_checked(hash, env, value, now, result)
                &&& found.state == query::told(result)
                &&& !(value is NotUnicode)
                &&& state::env_described(hash, env.name, value, env)
            },
    }
}

/// If a command has been run before, and every input is checked while the system
/// shows what is described, the cached output is returned.
///
/// The command was run and recorded, and is looked up, as in
/// [`unmodified_inputs_give_the_cached_output`]. A file is described as it is if it
/// holds what it held, whenever it was modified, or is still missing, and a variable
/// if it has the same value or still has none.
pub proof fn an_unmodified_system_gives_the_cached_output<H: Fn(&str) -> String>(
    hash: H,
    digest: spec_fn(Seq<char>) -> Seq<char>,
    run: CommandRun,
    found: Seq<InputView>,
    reason: Option<CacheMissReason>,
    finished: FinishedRun,
    entry: CachedEntry,
    extra: Seq<InputView>,
    query: CacheQuery,
    states: Seq<Checked>,
    conclusion: QueryConclusion,
)
    requires
        digest::computes(hash, digest),
        command::finishes(hash, true, run, found, reason, finished),
        run.status.raw == 0,
        finished.record matches Some(input_hash) && entry.command.input_hash@ == input_hash@,
        entry.command.output@ == run.stdout@,
        normal::same_up_to_order(query::recorded_inputs(entry), finished.output@.inputs),
        normal_form::consistent(extra),
        forall|i: int|
            0 <= i < extra.len() ==> recognised(finished.output@.inputs, #[trigger] extra[i]),
        query::database_tells(hash, Some(entry), extra, query),
        forall|i: int| 0 <= i < states.len() ==> checked_unmodified(hash, #[trigger] states[i]),
        query matches CacheQuery::CheckInputs { command, inputs } ==> query::concludes(
            conclusion,
            command,
            input::views(inputs@),
            states,
        ),
    ensures
        query is CheckInputs,
        conclusion.result matches CacheCheckResult::Hit(output) && output.cache_hit
            && output.stdout@ == run.stdout@ && output.status.raw == 0,
{
    assert forall|i: int, change: Change|
        0 <= i < states.len() implies !#[trigger] query::is_changed(states[i], change) by {
        let checked = states[i];
        assert(checked_unmodified(hash, checked));
        match checked.input {
            InputView::File(file) => {
                let (metadata, contents) = choose|
                    metadata: Option<FileMetadata>,
                    contents: PathContents,
                |
                    {
                        &&& #[trigger] checks::file_checked(
                            hash,
                            file,
                            metadata,
                            contents,
                            checked.state,
                        )
                        &&& checks::holds_what_it_held(hash, file, metadata, contents)
                    };
                checks::unmodified_files_do_not_rule_out(
                    hash,
                    digest,
                    file,
                    metadata,
                    contents,
                    checked.state,
                );
            },
            InputView::Env(env) => {
                let (value, now, result) = choose|
                    value: EnvLookup,
                    now: Timestamp,
                    result: Result<FileState, InputError>,
                |
                    {
                        &&& #[trigger] state::env_checked(hash, env, value, now, result)
                        &&& checked.state == query::told(result)
                        &&& !(value is NotUnicode)
                        &&& state::env_described(hash, env.name, value, env)
                    };
                checks::unmodified_variables_do_not_rule_out(
                    hash,
                    digest,
                    env.name,
                    value,
                    env,
                    now,
                    result,
                );
            },
        }
        match change {
            Change::Modified => {},
            Change::Removed => {},
        }
    }
    unmodified_inputs_give_the_cached_output(
        hash,
        digest,
        run,
        found,
        reason,
        finished,
        entry,
        extra,
        query,
        states,
        conclusion,
    );
}

/// The cached output is returned only for a command that the database holds, whose
/// current inputs have the recorded digest, and of which none was found modified or
/// removed; and it is what the database holds.
pub proof fn only_unmodified_inputs_give_the_cached_output<H: Fn(&str) -> String>(
    hash: H,
    entry: Option<CachedEntry>,
    extra: Seq<InputView>,
    query: CacheQuery,
    states: Seq<Checked>,
    conclusion: QueryConclusion,
)
    requires
        query::database_tells(hash, entry, extra, query),
        query matches CacheQuery::CheckInputs { command, inputs } && query::concludes(
            conclusion,
            command,
            input::views(inputs@),
            states,
        ),
        conclusion.result is Hit,
    ensures
        entry matches Some(entry) && {
            let current = query::current_inputs(query::recorded_inputs(entry), extra);
            &&& digest::hashes_to(hash, input::hash_source(current), entry.command.input_hash@)
            &&& conclusion.result->Hit_0@ == query::cached_output(entry.command, current)
        },
        !changed_any(states, Change::Modified),
        !changed_any(states, Change::Removed),
{
    only_changes_rule_out(states);
}

} // verus!
