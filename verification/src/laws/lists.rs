//! What is made of lists is made of each member, in order.
use crate::command::{self, InternalLog, Op};
use crate::input::{self, Input, InputView};
use crate::normal;
use crate::order::Comparison;
use crate::path::FilePath;
use crate::query::{self, Change, Checked};
use crate::state::{self, FileStateView};
use crate::text;
use crate::time::Timestamp;
use vstd::prelude::*;
use vstd::utf8::*;

verus! {

/// The text that is hashed for one input is its digest, whether it is a file, a
/// directory or a variable, and none if it has none.
pub proof fn one_input_is_hashed_by_its_digest(x: InputView)
    ensures
        match x {
            InputView::File(file) => match file.content_hash {
                Some(digest) => input::hash_source(seq![x]) == digest,
                None => input::hash_source(seq![x]).len() == 0,
            },
            InputView::Env(env) => match env.content_hash {
                Some(digest) => input::hash_source(seq![x]) == digest,
                None => input::hash_source(seq![x]).len() == 0,
            },
        },
{
    assert(seq![x].drop_last() =~= Seq::empty());
    assert(input::hash_source(Seq::empty()) == Seq::<char>::empty());
    let one = input::hash_source(seq![x]);
    assert(one =~= match x.content_hash() {
        Some(digest) => digest,
        None => Seq::empty(),
    });
}

/// The text that is hashed for two lists in a row is that of the one and then that of
/// the other: every input counts, wherever it stands.
pub proof fn all_inputs_are_hashed(a: Seq<InputView>, b: Seq<InputView>)
    ensures
        input::hash_source(a + b) == input::hash_source(a) + input::hash_source(b),
    decreases b.len(),
{
    if b.len() == 0 {
        assert(a + b =~= a);
    } else {
        all_inputs_are_hashed(a, b.drop_last());
        assert((a + b).drop_last() =~= a + b.drop_last());
    }
    assert(input::hash_source(a + b) =~= input::hash_source(a) + input::hash_source(b));
}

/// The listing of one entry is its path as text.
pub proof fn one_entry_is_listed_as_text(entry: FilePath)
    ensures
        state::listing(seq![entry]) == text::utf8_lossy(entry.bytes@),
{
    assert(seq![entry].drop_last() =~= Seq::empty());
    assert(state::listing(Seq::empty()) == Seq::<char>::empty());
    assert(state::listing(seq![entry]) =~= text::utf8_lossy(entry.bytes@));
}

/// The listing of two lists of entries in a row is that of the one and then that of
/// the other: every entry is listed, and a directory with one more entry by a text
/// that is longer by that entry's.
pub proof fn all_entries_are_listed(a: Seq<FilePath>, b: Seq<FilePath>, entry: FilePath)
    ensures
        state::listing(a + b) == state::listing(a) + state::listing(b),
        state::listing(a.push(entry)) == state::listing(a) + text::utf8_lossy(entry.bytes@),
        state::listing(a.push(entry)).len() == state::listing(a).len() + text::utf8_lossy(
            entry.bytes@,
        ).len(),
    decreases b.len(),
{
    if b.len() == 0 {
        assert(a + b =~= a);
    } else {
        all_entries_are_listed(a, b.drop_last(), entry);
        assert((a + b).drop_last() =~= a + b.drop_last());
    }
    assert(state::listing(a + b) =~= state::listing(a) + state::listing(b));
    assert(a.push(entry).drop_last() =~= a);
}

/// A line of the log with an operation reports it, whatever kind of operation it is,
/// if the line is a message. No other line reports one.
pub proof fn every_message_reports_its_operation(op: Op, shown: Option<String>)
    ensures
        command::reported_ops(seq![InternalLog::Msg { op: Some(op), shown }]) == seq![op],
        command::reported_ops(seq![InternalLog::Msg { op: None, shown }]) == Seq::<Op>::empty(),
        command::reported_ops(seq![InternalLog::Other { shown }]) == Seq::<Op>::empty(),
{
    assert(command::reported_ops(Seq::empty()) == Seq::<Op>::empty());
    let a = seq![InternalLog::Msg { op: Some(op), shown }];
    let b = seq![InternalLog::Msg { op: None, shown }];
    let c = seq![InternalLog::Other { shown }];
    assert(a.drop_last() =~= Seq::empty());
    assert(b.drop_last() =~= Seq::empty());
    assert(c.drop_last() =~= Seq::empty());
    assert(command::reported_ops(a) =~= seq![op]);
}

/// The operations that two logs in a row report are those of the one and then those
/// of the other.
pub proof fn all_lines_are_read(a: Seq<InternalLog>, b: Seq<InternalLog>)
    ensures
        command::reported_ops(a + b) == command::reported_ops(a) + command::reported_ops(b),
        command::shown_lines(a + b) == command::shown_lines(a) + command::shown_lines(b),
    decreases b.len(),
{
    if b.len() == 0 {
        assert(a + b =~= a);
    } else {
        all_lines_are_read(a, b.drop_last());
        assert((a + b).drop_last() =~= a + b.drop_last());
    }
    assert(command::reported_ops(a + b) =~= command::reported_ops(a) + command::reported_ops(b));
    assert(command::shown_lines(a + b) =~= command::shown_lines(a) + command::shown_lines(b));
}

/// Two lists of operations are the same if and only if they are as long and the same
/// at every place.
pub proof fn operations_are_the_same_at_every_place(a: Seq<Op>, b: Seq<Op>)
    ensures
        command::same_ops(a, b) <==> a.len() == b.len() && forall|i: int|
            0 <= i < a.len() ==> command::same_op(#[trigger] a[i], b[i]),
{
}

/// A line that is meant to be shown is shown, and becomes its bytes with a line end.
pub proof fn every_line_is_shown(op: Option<Op>, line: String, lines: Seq<Seq<char>>, more: Seq<char>)
    ensures
        command::shown_lines(seq![InternalLog::Msg { op, shown: Some(line) }]) == seq![line@],
        command::shown_lines(seq![InternalLog::Other { shown: Some(line) }]) == seq![line@],
        command::shown_lines(seq![InternalLog::Msg { op, shown: None }]) == Seq::<Seq<char>>::empty(),
        command::shown_lines(seq![InternalLog::Other { shown: None }]) == Seq::<Seq<char>>::empty(),
        command::lines_bytes(Seq::empty()) == Seq::<u8>::empty(),
        command::lines_bytes(lines.push(more)) == command::lines_bytes(lines) + encode_utf8(more)
            + seq![0x0au8],
{
    assert(command::shown_lines(Seq::empty()) == Seq::<Seq<char>>::empty());
    let a = seq![InternalLog::Msg { op, shown: Some(line) }];
    let b = seq![InternalLog::Other { shown: Some(line) }];
    let c = seq![InternalLog::Msg { op, shown: None }];
    let d = seq![InternalLog::Other { shown: None }];
    assert(a.drop_last() =~= Seq::empty());
    assert(b.drop_last() =~= Seq::empty());
    assert(c.drop_last() =~= Seq::empty());
    assert(d.drop_last() =~= Seq::empty());
    assert(command::shown_lines(a) =~= seq![line@]);
    assert(command::shown_lines(b) =~= seq![line@]);
    assert(lines.push(more).drop_last() =~= lines);
}

/// An operation of any kind on a path makes it a dependency if and only if the path
/// matters to the cache, and reading a variable makes that one. Nothing else does.
pub proof fn every_operation_makes_its_dependency(op: Op, excluded: Seq<Seq<u8>>)
    ensures
        match op {
            Op::CopiedSource { source }
            | Op::EvaluatedFile { source }
            | Op::ReadFile { source }
            | Op::ReadDir { source }
            | Op::PathExists { source }
            | Op::TrackedPath { source } => {
                &&& command::is_tracked(source.bytes@, excluded) ==> command::tracked_sources(
                    seq![op],
                    excluded,
                ) == seq![source.bytes@]
                &&& !command::is_tracked(source.bytes@, excluded) ==> command::tracked_sources(
                    seq![op],
                    excluded,
                ).len() == 0
                &&& command::read_variables(seq![op]).len() == 0
            },
            Op::GetEnv { name } => {
                &&& command::tracked_sources(seq![op], excluded).len() == 0
                &&& command::read_variables(seq![op]) == seq![name@]
            },
            Op::Other => {
                &&& command::tracked_sources(seq![op], excluded).len() == 0
                &&& command::read_variables(seq![op]).len() == 0
            },
        },
{
    assert(seq![op].drop_last() =~= Seq::empty());
    assert(command::tracked_sources(Seq::empty(), excluded) == Seq::<Seq<u8>>::empty());
    assert(command::read_variables(Seq::empty()) == Seq::<Seq<char>>::empty());
    match op@ {
        command::OpView::Source(source) => {
            if command::is_tracked(source, excluded) {
                assert(command::tracked_sources(seq![op], excluded) =~= seq![source]);
            }
        },
        command::OpView::GetEnv(name) => {
            assert(command::read_variables(seq![op]) =~= seq![name]);
        },
        command::OpView::Other => {},
    }
}

/// The dependencies by two lists of operations in a row are those by the one and then
/// those by the other.
pub proof fn all_operations_count(a: Seq<Op>, b: Seq<Op>, excluded: Seq<Seq<u8>>)
    ensures
        command::tracked_sources(a + b, excluded) == command::tracked_sources(a, excluded)
            + command::tracked_sources(b, excluded),
        command::read_variables(a + b) == command::read_variables(a) + command::read_variables(b),
    decreases b.len(),
{
    if b.len() == 0 {
        assert(a + b =~= a);
    } else {
        all_operations_count(a, b.drop_last(), excluded);
        assert((a + b).drop_last() =~= a + b.drop_last());
    }
    assert(command::tracked_sources(a + b, excluded) =~= command::tracked_sources(a, excluded)
        + command::tracked_sources(b, excluded));
    assert(command::read_variables(a + b) =~= command::read_variables(a) + command::read_variables(
        b,
    ));
}

/// A file that was found modified or removed is named as such, one that was only
/// touched is to be recorded, and a variable is named in the same way as a file.
pub proof fn every_state_counts(found: Checked)
    ensures
        query::changed_files(seq![found], Change::Modified) == (match (found.input, found.state) {
            (InputView::File(file), Some(FileStateView::Modified { .. })) => seq![file.path],
            _ => Seq::empty(),
        }),
        query::changed_files(seq![found], Change::Removed) == (match (found.input, found.state) {
            (InputView::File(file), Some(FileStateView::Removed)) => seq![file.path],
            _ => Seq::empty(),
        }),
        query::changed_envs(seq![found], Change::Modified) == (match (found.input, found.state) {
            (InputView::Env(env), Some(FileStateView::Modified { .. })) => seq![env.name],
            _ => Seq::empty(),
        }),
        query::changed_envs(seq![found], Change::Removed) == (match (found.input, found.state) {
            (InputView::Env(env), Some(FileStateView::Removed)) => seq![env.name],
            _ => Seq::empty(),
        }),
        query::touched_files(seq![found]) == (match (found.input, found.state) {
            (InputView::File(file), Some(FileStateView::MetadataModified { modified_at })) => seq![
                (file.path, modified_at),
            ],
            _ => Seq::empty(),
        }),
{
    assert(seq![found].drop_last() =~= Seq::empty());
    assert(query::changed_files(Seq::empty(), Change::Modified) == Seq::<Seq<u8>>::empty());
    assert(query::changed_files(Seq::empty(), Change::Removed) == Seq::<Seq<u8>>::empty());
    assert(query::changed_envs(Seq::empty(), Change::Modified) == Seq::<Seq<char>>::empty());
    assert(query::changed_envs(Seq::empty(), Change::Removed) == Seq::<Seq<char>>::empty());
    assert(query::touched_files(Seq::empty()) == Seq::<(Seq<u8>, Timestamp)>::empty());
}

/// What two lists of states in a row name is what the one names and then what the
/// other does.
pub proof fn all_states_count(a: Seq<Checked>, b: Seq<Checked>, change: Change)
    ensures
        query::changed_files(a + b, change) == query::changed_files(a, change)
            + query::changed_files(b, change),
        query::changed_envs(a + b, change) == query::changed_envs(a, change) + query::changed_envs(
            b,
            change,
        ),
        query::touched_files(a + b) == query::touched_files(a) + query::touched_files(b),
    decreases b.len(),
{
    if b.len() == 0 {
        assert(a + b =~= a);
    } else {
        all_states_count(a, b.drop_last(), change);
        assert((a + b).drop_last() =~= a + b.drop_last());
    }
    assert(query::changed_files(a + b, change) =~= query::changed_files(a, change)
        + query::changed_files(b, change));
    assert(query::changed_envs(a + b, change) =~= query::changed_envs(a, change)
        + query::changed_envs(b, change));
    assert(query::touched_files(a + b) =~= query::touched_files(a) + query::touched_files(b));
}

proof fn inserted_multiset(a: Seq<InputView>, x: InputView)
    ensures
        normal::inserted(a, x).to_multiset() == a.to_multiset().insert(x),
    decreases a.len(),
{
    broadcast use vstd::seq_lib::group_to_multiset_ensures;

    if a.len() == 0 || input::input_order(a.last(), x) != Comparison::Greater {
    } else {
        inserted_multiset(a.drop_last(), x);
        assert(a =~= a.drop_last().push(a.last()));
        assert(normal::inserted(a, x).to_multiset() =~= a.to_multiset().insert(x));
    }
}

proof fn sorted_multiset(inputs: Seq<InputView>)
    ensures
        normal::sorted(inputs).to_multiset() == inputs.to_multiset(),
    decreases inputs.len(),
{
    broadcast use vstd::seq_lib::group_to_multiset_ensures;

    if inputs.len() > 0 {
        sorted_multiset(inputs.drop_last());
        inserted_multiset(normal::sorted(inputs.drop_last()), inputs.last());
        assert(inputs =~= inputs.drop_last().push(inputs.last()));
    } else {
        assert(normal::sorted(inputs) =~= inputs);
    }
}

/// A sorted list has the same members as often, no member comes before one that it
/// should come after, and members that are tied stand as they stood.
pub proof fn sorting_only_reorders(inputs: Seq<InputView>, x: InputView)
    ensures
        normal::sorted(inputs).len() == inputs.len(),
        normal::sorted(inputs).to_multiset() == inputs.to_multiset(),
        forall|i: int, j: int|
            0 <= i < j < inputs.len() ==> #[trigger] input::input_order(
                normal::sorted(inputs)[i],
                normal::sorted(inputs)[j],
            ) != Comparison::Greater,
        normal::tied(normal::sorted(inputs), x) == normal::tied(inputs, x),
{
    broadcast use vstd::seq_lib::group_to_multiset_ensures;

    sorted_multiset(inputs);
    normal::sorted_is_in_order(inputs);
    assert(inputs.to_multiset().len() == inputs.len());
    assert(normal::sorted(inputs).to_multiset().len() == normal::sorted(inputs).len());
}

/// The members that are tied with an input in two lists in a row are those in the one
/// and then those in the other; one alone is tied if the order tells them equal.
pub proof fn ties_are_by_the_order(a: Seq<InputView>, b: Seq<InputView>, x: InputView, y: InputView)
    ensures
        normal::tied(a + b, x) == normal::tied(a, x) + normal::tied(b, x),
        input::input_order(x, y) == Comparison::Equal ==> normal::tied(seq![y], x) == seq![y],
        input::input_order(x, y) != Comparison::Equal ==> normal::tied(seq![y], x).len() == 0,
{
    normal::tied_concat(a, b, x);
    assert(seq![y].drop_last() =~= Seq::empty());
    assert(normal::tied(Seq::empty(), x) == Seq::<InputView>::empty());
    if input::input_order(x, y) == Comparison::Equal {
        assert(normal::tied(seq![y], x) =~= seq![y]);
    }
}

/// Dropping repetitions drops each member that has the contents of the one right
/// before it, and keeps every other one.
pub proof fn only_repetitions_are_dropped(inputs: Seq<InputView>, x: InputView)
    ensures
        normal::deduped(seq![x]) == seq![x],
        inputs.len() > 0 && input::same_contents(inputs.last(), x) ==> normal::deduped(
            inputs.push(x),
        ) == normal::deduped(inputs),
        inputs.len() > 0 && !input::same_contents(inputs.last(), x) ==> normal::deduped(
            inputs.push(x),
        ) == normal::deduped(inputs).push(x),
        normal::normalised(inputs) == normal::deduped(normal::sorted(inputs)),
        normal::deduped(Seq::empty()) == Seq::<InputView>::empty(),
{
    assert(seq![x].drop_last() =~= Seq::empty());
    assert(normal::deduped(Seq::empty()) == Seq::<InputView>::empty());
    assert(normal::deduped(seq![x]) =~= seq![x]);
    assert(inputs.push(x).drop_last() =~= inputs);
    if inputs.len() > 0 {
        let rest = normal::deduped(inputs);
        crate::laws::normal_form::deduped_last(inputs);
        crate::laws::normal_form::same_contents_is_an_equivalence(x, inputs.last(), rest.last());
        crate::laws::normal_form::same_contents_is_an_equivalence(x, rest.last(), inputs.last());
        crate::laws::normal_form::same_contents_is_an_equivalence(inputs.last(), x, x);
    }
}

/// Picking the files and the variables out of a list leaves none out.
pub proof fn all_inputs_are_picked(inputs: Seq<Input>, file: Input)
    ensures
        inputs.push(file).filter_map(input::as_file()) == (match file {
            Input::File(desc) => inputs.filter_map(input::as_file()).push(desc),
            Input::Env(_) => inputs.filter_map(input::as_file()),
        }),
        inputs.push(file).filter_map(input::as_env()) == (match file {
            Input::File(_) => inputs.filter_map(input::as_env()),
            Input::Env(desc) => inputs.filter_map(input::as_env()).push(desc),
        }),
{
    let all = inputs.push(file);
    let n = inputs.len() as int;
    all.lemma_filter_map_take_succ(input::as_file(), n);
    all.lemma_filter_map_take_succ(input::as_env(), n);
    assert(all.take(n + 1) =~= all);
    assert(all.take(n) =~= inputs);
    assert(all[n] == file);
    let (files, envs) = (inputs.filter_map(input::as_file()), inputs.filter_map(input::as_env()));
    match file {
        Input::File(desc) => {
            assert(files + seq![desc] =~= files.push(desc));
            assert(envs + Seq::empty() =~= envs);
        },
        Input::Env(desc) => {
            assert(envs + seq![desc] =~= envs.push(desc));
            assert(files + Seq::empty() =~= files);
        },
    }
}

} // verus!
