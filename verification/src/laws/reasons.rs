//! Which reason is given, case by case.
use crate::input::{InputIdentifierView, InputKey, InputView};
use crate::miss::{self, CacheMissReasonView, Difference};
use crate::order::Comparison;
use crate::path;
use crate::query::{self, Change, Checked};
use crate::state::FileStateView;
use crate::table::{self, Known};
use crate::text;
use vstd::prelude::*;

verus! {

/// An input is known by the contents with which it occurs last.
pub proof fn the_last_occurrence_tells_the_contents(inputs: Seq<InputView>, i: int)
    requires
        0 <= i < inputs.len(),
        forall|j: int|
            i < j < inputs.len() ==> (#[trigger] inputs[j]).key() != inputs[i].key(),
    ensures
        table::by_identity(inputs).contains_key(inputs[i].key()),
        table::by_identity(inputs)[inputs[i].key()].last == (match inputs[i] {
            InputView::File(file) => file.content_hash,
            InputView::Env(env) => env.content_hash,
        }),
    decreases inputs.len(),
{
    if i < inputs.len() - 1 {
        let front = inputs.drop_last();
        assert(inputs[inputs.len() - 1].key() != inputs[i].key());
        assert forall|j: int| i < j < front.len() implies (#[trigger] front[j]).key()
            != front[i].key() by {
            assert(inputs[j].key() != inputs[i].key());
        }
        the_last_occurrence_tells_the_contents(front, i);
    }
}

/// An input is known by the path or name with which it occurs first.
pub proof fn the_first_occurrence_tells_the_spelling(inputs: Seq<InputView>, i: int)
    requires
        0 <= i < inputs.len(),
        forall|j: int| 0 <= j < i ==> (#[trigger] inputs[j]).key() != inputs[i].key(),
    ensures
        table::by_identity(inputs).contains_key(inputs[i].key()),
        table::by_identity(inputs)[inputs[i].key()].identifier == (match inputs[i] {
            InputView::File(file) => InputIdentifierView::File(file.path),
            InputView::Env(env) => InputIdentifierView::Env(env.name),
        }),
    decreases inputs.len(),
{
    let front = inputs.drop_last();
    if i < inputs.len() - 1 {
        assert forall|j: int| 0 <= j < i implies (#[trigger] front[j]).key() != front[i].key() by {
            assert(inputs[j].key() != inputs[i].key());
        }
        the_first_occurrence_tells_the_spelling(front, i);
    } else {
        crate::laws::explanation::known_inputs_occur(front, inputs[i].key());
        if table::by_identity(front).contains_key(inputs[i].key()) {
            let j = choose|j: int|
                0 <= j < front.len() && #[trigger] front[j].key() == inputs[i].key();
            assert(inputs[j].key() != inputs[i].key());
        }
    }
}

/// An input of one list differs in another by its contents if it is in both and held
/// something else last, or is a file with a digest that it does not have there. It
/// differs by absence if it is in the one and not in the other.
pub proof fn inputs_differ_by_contents_or_absence(
    list: Map<InputKey, Known>,
    other: Map<InputKey, Known>,
    key: InputKey,
)
    ensures
        miss::differs(list, other, Difference::Absent, key) <==> list.contains_key(key)
            && !other.contains_key(key),
        miss::differs(list, other, Difference::OtherContents, key) <==> {
            &&& list.contains_key(key)
            &&& other.contains_key(key)
            &&& {
                ||| list[key].last != other[key].last
                ||| key is File && exists|digest: Seq<char>|
                    list[key].digests.contains(digest) && !#[trigger] other[key].digests.contains(
                        digest,
                    )
            }
        },
{
    if list.contains_key(key) && other.contains_key(key) {
        if !list[key].digests.subset_of(other[key].digests) {
            let digest = choose|digest: Seq<char>|
                list[key].digests.contains(digest) && !#[trigger] other[key].digests.contains(
                    digest,
                );
            assert(list[key].digests.contains(digest) && !other[key].digests.contains(digest));
        }
    }
}

/// A file with other contents than recorded is named in the reason, which is that
/// files were modified; and every file that is named is such a one.
pub proof fn modified_files_are_named_first(
    reason: CacheMissReasonView,
    old: Map<InputKey, Known>,
    new: Map<InputKey, Known>,
    key: InputKey,
)
    requires
        miss::explains(reason, old, new),
        key is File,
        old.contains_key(key),
        new.contains_key(key),
        old[key].last != new[key].last || exists|digest: Seq<char>|
            new[key].digests.contains(digest) && !#[trigger] old[key].digests.contains(digest),
    ensures
        reason matches CacheMissReasonView::FilesModified { paths } && (exists|i: int|
            0 <= i < paths.len() && InputKey::File(path::components(#[trigger] paths[i])) == key)
            && forall|i: int|
            0 <= i < paths.len() ==> {
                let named = InputKey::File(path::components(#[trigger] paths[i]));
                &&& miss::differs(new, old, Difference::OtherContents, named)
                &&& new[named].identifier == InputIdentifierView::File(paths[i])
            },
{
    inputs_differ_by_contents_or_absence(new, old, key);
    assert(miss::differs(new, old, Difference::OtherContents, key));
    let paths = reason->FilesModified_paths;
    let i = choose|i: int| 0 <= i < paths.len() && #[trigger] miss::file_key(paths[i]) == key;
    assert(InputKey::File(path::components(paths[i])) == key);
    assert forall|i: int| 0 <= i < paths.len() implies {
        let named = InputKey::File(path::components(#[trigger] paths[i]));
        &&& miss::differs(new, old, Difference::OtherContents, named)
        &&& new[named].identifier == InputIdentifierView::File(paths[i])
    } by {
        assert(miss::differs(new, old, Difference::OtherContents, miss::file_key(paths[i])));
    }
}

/// Where no file has other contents, a file that is not recorded is named, as
/// modified; and every file that is named is such a one.
pub proof fn new_files_are_named_second(
    reason: CacheMissReasonView,
    old: Map<InputKey, Known>,
    new: Map<InputKey, Known>,
    key: InputKey,
)
    requires
        miss::explains(reason, old, new),
        key is File,
        new.contains_key(key),
        !old.contains_key(key),
        forall|other: InputKey|
            other is File && #[trigger] new.contains_key(other) && old.contains_key(other) ==> {
                &&& old[other].last == new[other].last
                &&& new[other].digests.subset_of(old[other].digests)
            },
    ensures
        reason matches CacheMissReasonView::FilesModified { paths } && (exists|i: int|
            0 <= i < paths.len() && InputKey::File(path::components(#[trigger] paths[i])) == key)
            && forall|i: int|
            0 <= i < paths.len() ==> {
                let named = InputKey::File(path::components(#[trigger] paths[i]));
                new.contains_key(named) && !old.contains_key(named)
            },
{
    assert(miss::differs(new, old, Difference::Absent, key));
    assert forall|other: InputKey| other is File implies !#[trigger] miss::differs(
        new,
        old,
        Difference::OtherContents,
        other,
    ) by {}
    let paths = reason->FilesModified_paths;
    let i = choose|i: int| 0 <= i < paths.len() && #[trigger] miss::file_key(paths[i]) == key;
    assert(InputKey::File(path::components(paths[i])) == key);
    assert forall|i: int| 0 <= i < paths.len() implies {
        let named = InputKey::File(path::components(#[trigger] paths[i]));
        new.contains_key(named) && !old.contains_key(named)
    } by {
        assert(miss::differs(new, old, Difference::Absent, miss::file_key(paths[i])));
    }
}

/// Where all files are recorded with their contents, a recorded file that is not
/// tracked any more is named, as removed; and every file that is named is such a one.
pub proof fn missing_files_are_named_third(
    reason: CacheMissReasonView,
    old: Map<InputKey, Known>,
    new: Map<InputKey, Known>,
    key: InputKey,
)
    requires
        miss::explains(reason, old, new),
        key is File,
        old.contains_key(key),
        !new.contains_key(key),
        forall|other: InputKey|
            other is File && #[trigger] new.contains_key(other) ==> {
                &&& old.contains_key(other)
                &&& old[other].last == new[other].last
                &&& new[other].digests.subset_of(old[other].digests)
            },
    ensures
        reason matches CacheMissReasonView::FilesRemoved { paths } && (exists|i: int|
            0 <= i < paths.len() && InputKey::File(path::components(#[trigger] paths[i])) == key)
            && forall|i: int|
            0 <= i < paths.len() ==> {
                let named = InputKey::File(path::components(#[trigger] paths[i]));
                old.contains_key(named) && !new.contains_key(named)
            },
{
    assert(miss::differs(old, new, Difference::Absent, key));
    assert forall|other: InputKey| other is File implies !#[trigger] miss::differs(
        new,
        old,
        Difference::OtherContents,
        other,
    ) by {}
    assert forall|other: InputKey| other is File implies !#[trigger] miss::differs(
        new,
        old,
        Difference::Absent,
        other,
    ) by {}
    let paths = reason->FilesRemoved_paths;
    let i = choose|i: int| 0 <= i < paths.len() && #[trigger] miss::file_key(paths[i]) == key;
    assert(InputKey::File(path::components(paths[i])) == key);
    assert forall|i: int| 0 <= i < paths.len() implies {
        let named = InputKey::File(path::components(#[trigger] paths[i]));
        old.contains_key(named) && !new.contains_key(named)
    } by {
        assert(miss::differs(old, new, Difference::Absent, miss::file_key(paths[i])));
    }
}

/// Where the files are the recorded ones with their contents, a variable with other
/// contents is named, as modified; and every variable that is named is such a one.
pub proof fn modified_variables_are_named_fourth(
    reason: CacheMissReasonView,
    old: Map<InputKey, Known>,
    new: Map<InputKey, Known>,
    name: Seq<char>,
)
    requires
        miss::explains(reason, old, new),
        forall|other: InputKey|
            other is File && #[trigger] new.contains_key(other) ==> {
                &&& old.contains_key(other)
                &&& old[other].last == new[other].last
                &&& new[other].digests.subset_of(old[other].digests)
            },
        forall|other: InputKey|
            other is File && #[trigger] old.contains_key(other) ==> new.contains_key(other),
        new.contains_key(InputKey::Env(name)),
        old.contains_key(InputKey::Env(name)),
        new[InputKey::Env(name)].last != old[InputKey::Env(name)].last,
    ensures
        reason matches CacheMissReasonView::EnvModified { names } && names.contains(name) && forall|
            i: int,
        |
            0 <= i < names.len() ==> {
                let named = InputKey::Env(#[trigger] names[i]);
                new.contains_key(named) && old.contains_key(named) && new[named].last
                    != old[named].last
            },
{
    no_file_differs(old, new);
    assert(miss::differs(new, old, Difference::OtherContents, InputKey::Env(name)));
    named_variable(reason->EnvModified_names, new, old, Difference::OtherContents, name);
}

/// Where no variable has other contents either, one that is not recorded is named, as
/// modified; and every variable that is named is such a one.
pub proof fn new_variables_are_named_fifth(
    reason: CacheMissReasonView,
    old: Map<InputKey, Known>,
    new: Map<InputKey, Known>,
    name: Seq<char>,
)
    requires
        miss::explains(reason, old, new),
        forall|other: InputKey|
            other is File && #[trigger] new.contains_key(other) ==> {
                &&& old.contains_key(other)
                &&& old[other].last == new[other].last
                &&& new[other].digests.subset_of(old[other].digests)
            },
        forall|other: InputKey|
            other is File && #[trigger] old.contains_key(other) ==> new.contains_key(other),
        new.contains_key(InputKey::Env(name)),
        !old.contains_key(InputKey::Env(name)),
        forall|other: InputKey|
            other is Env && #[trigger] new.contains_key(other) && old.contains_key(other)
                ==> new[other].last == old[other].last,
    ensures
        reason matches CacheMissReasonView::EnvModified { names } && names.contains(name) && forall|
            i: int,
        |
            0 <= i < names.len() ==> {
                let named = InputKey::Env(#[trigger] names[i]);
                new.contains_key(named) && !old.contains_key(named)
            },
{
    no_file_differs(old, new);
    assert(miss::differs(new, old, Difference::Absent, InputKey::Env(name)));
    assert forall|key: InputKey| key is Env implies !#[trigger] miss::differs(
        new,
        old,
        Difference::OtherContents,
        key,
    ) by {}
    named_variable(reason->EnvModified_names, new, old, Difference::Absent, name);
}

/// Where all current inputs are recorded with their contents, a recorded variable that
/// is not read any more is named, as removed; and every variable that is named is such
/// a one.
pub proof fn missing_variables_are_named_last(
    reason: CacheMissReasonView,
    old: Map<InputKey, Known>,
    new: Map<InputKey, Known>,
    name: Seq<char>,
)
    requires
        miss::explains(reason, old, new),
        forall|other: InputKey|
            other is File && #[trigger] new.contains_key(other) ==> {
                &&& old.contains_key(other)
                &&& old[other].last == new[other].last
                &&& new[other].digests.subset_of(old[other].digests)
            },
        forall|other: InputKey|
            other is File && #[trigger] old.contains_key(other) ==> new.contains_key(other),
        old.contains_key(InputKey::Env(name)),
        !new.contains_key(InputKey::Env(name)),
        forall|other: InputKey|
            other is Env && #[trigger] new.contains_key(other) && old.contains_key(other)
                ==> new[other].last == old[other].last,
        forall|other: InputKey|
            other is Env && #[trigger] new.contains_key(other) ==> old.contains_key(other),
    ensures
        reason matches CacheMissReasonView::EnvRemoved { names } && names.contains(name) && forall|
            i: int,
        |
            0 <= i < names.len() ==> {
                let named = InputKey::Env(#[trigger] names[i]);
                old.contains_key(named) && !new.contains_key(named)
            },
{
    no_file_differs(old, new);
    assert(miss::differs(old, new, Difference::Absent, InputKey::Env(name)));
    assert forall|key: InputKey| key is Env implies !#[trigger] miss::differs(
        new,
        old,
        Difference::OtherContents,
        key,
    ) by {}
    assert forall|key: InputKey| key is Env implies !#[trigger] miss::differs(
        new,
        old,
        Difference::Absent,
        key,
    ) by {}
    named_variable(reason->EnvRemoved_names, old, new, Difference::Absent, name);
}

/// Where both lists have the same inputs with the same contents, the reason is that
/// the inputs changed.
pub proof fn the_inputs_changed_where_nothing_differs(
    reason: CacheMissReasonView,
    old: Map<InputKey, Known>,
    new: Map<InputKey, Known>,
)
    requires
        miss::explains(reason, old, new),
        forall|other: InputKey|
            other is File && #[trigger] new.contains_key(other) ==> {
                &&& old.contains_key(other)
                &&& old[other].last == new[other].last
                &&& new[other].digests.subset_of(old[other].digests)
            },
        forall|other: InputKey|
            other is File && #[trigger] old.contains_key(other) ==> new.contains_key(other),
        forall|other: InputKey|
            other is Env && #[trigger] new.contains_key(other) && old.contains_key(other)
                ==> new[other].last == old[other].last,
        forall|other: InputKey|
            other is Env && #[trigger] new.contains_key(other) ==> old.contains_key(other),
        forall|other: InputKey|
            other is Env && #[trigger] old.contains_key(other) ==> new.contains_key(other),
    ensures
        reason is InputsChanged,
{
    no_file_differs(old, new);
    assert forall|key: InputKey| key is Env implies !#[trigger] miss::differs(
        new,
        old,
        Difference::OtherContents,
        key,
    ) by {}
    assert forall|key: InputKey| key is Env implies !#[trigger] miss::differs(
        new,
        old,
        Difference::Absent,
        key,
    ) by {}
    assert forall|key: InputKey| key is Env implies !#[trigger] miss::differs(
        old,
        new,
        Difference::Absent,
        key,
    ) by {}
}

/// Every input that a reason names is named once, and there is at least one.
pub proof fn reasons_name_each_input_once(
    reason: CacheMissReasonView,
    old: Map<InputKey, Known>,
    new: Map<InputKey, Known>,
)
    requires
        miss::explains(reason, old, new),
    ensures
        !(reason is NotCached),
        reason matches CacheMissReasonView::FilesModified { paths } ==> paths.len() > 0 && forall|
            i: int,
            j: int,
        | 0 <= i < j < paths.len() ==> !path::same_path(#[trigger] paths[i], #[trigger] paths[j]),
        reason matches CacheMissReasonView::FilesRemoved { paths } ==> paths.len() > 0 && forall|
            i: int,
            j: int,
        | 0 <= i < j < paths.len() ==> !path::same_path(#[trigger] paths[i], #[trigger] paths[j]),
        reason matches CacheMissReasonView::EnvModified { names } ==> names.len() > 0 && forall|
            i: int,
            j: int,
        | 0 <= i < j < names.len() ==> #[trigger] names[i] != #[trigger] names[j],
        reason matches CacheMissReasonView::EnvRemoved { names } ==> names.len() > 0 && forall|
            i: int,
            j: int,
        | 0 <= i < j < names.len() ==> #[trigger] names[i] != #[trigger] names[j],
{
    match reason {
        CacheMissReasonView::FilesModified { paths } => {
            if miss::some_file_differs(new, old, Difference::OtherContents) {
                listed_files_once(paths, new, old, Difference::OtherContents);
            } else {
                listed_files_once(paths, new, old, Difference::Absent);
            }
        },
        CacheMissReasonView::FilesRemoved { paths } => {
            listed_files_once(paths, old, new, Difference::Absent);
        },
        CacheMissReasonView::EnvModified { names } => {
            if miss::some_env_differs(new, old, Difference::OtherContents) {
                listed_variables_once(names, new, old, Difference::OtherContents);
            } else {
                listed_variables_once(names, new, old, Difference::Absent);
            }
        },
        CacheMissReasonView::EnvRemoved { names } => {
            listed_variables_once(names, old, new, Difference::Absent);
        },
        _ => {},
    }
}

proof fn listed_files_once(
    paths: Seq<Seq<u8>>,
    list: Map<InputKey, Known>,
    other: Map<InputKey, Known>,
    difference: Difference,
)
    requires
        miss::lists_files(paths, list, other, difference),
        miss::some_file_differs(list, other, difference),
    ensures
        paths.len() > 0,
        forall|i: int, j: int|
            0 <= i < j < paths.len() ==> !path::same_path(#[trigger] paths[i], #[trigger] paths[j]),
{
    path::components_order_is_total();
    let key = choose|key: InputKey| key is File && #[trigger] miss::differs(
        list,
        other,
        difference,
        key,
    );
    assert(miss::differs(list, other, difference, key));
    assert forall|i: int, j: int| 0 <= i < j < paths.len() implies !path::same_path(
        #[trigger] paths[i],
        #[trigger] paths[j],
    ) by {
        assert(path::path_order(paths[i], paths[j]) == Comparison::Less);
    }
}

proof fn listed_variables_once(
    names: Seq<Seq<char>>,
    list: Map<InputKey, Known>,
    other: Map<InputKey, Known>,
    difference: Difference,
)
    requires
        miss::lists_envs(names, list, other, difference),
        miss::some_env_differs(list, other, difference),
    ensures
        names.len() > 0,
        forall|i: int, j: int|
            0 <= i < j < names.len() ==> #[trigger] names[i] != #[trigger] names[j],
{
    text::text_order_is_total();
    let key = choose|key: InputKey| key is Env && #[trigger] miss::differs(
        list,
        other,
        difference,
        key,
    );
    assert(miss::differs(list, other, difference, key));
    assert forall|i: int, j: int| 0 <= i < j < names.len() implies #[trigger] names[i]
        != #[trigger] names[j] by {
        assert(text::text_order(names[i], names[j]) == Comparison::Less);
    }
}

proof fn no_file_differs(old: Map<InputKey, Known>, new: Map<InputKey, Known>)
    requires
        forall|other: InputKey|
            other is File && #[trigger] new.contains_key(other) ==> {
                &&& old.contains_key(other)
                &&& old[other].last == new[other].last
                &&& new[other].digests.subset_of(old[other].digests)
            },
        forall|other: InputKey|
            other is File && #[trigger] old.contains_key(other) ==> new.contains_key(other),
    ensures
        !miss::some_file_differs(new, old, Difference::OtherContents),
        !miss::some_file_differs(new, old, Difference::Absent),
        !miss::some_file_differs(old, new, Difference::Absent),
{
}

proof fn named_variable(
    names: Seq<Seq<char>>,
    list: Map<InputKey, Known>,
    other: Map<InputKey, Known>,
    difference: Difference,
    name: Seq<char>,
)
    requires
        miss::lists_envs(names, list, other, difference),
        miss::differs(list, other, difference, InputKey::Env(name)),
    ensures
        names.contains(name),
        forall|i: int|
            0 <= i < names.len() ==> miss::differs(
                list,
                other,
                difference,
                InputKey::Env(#[trigger] names[i]),
            ),
{
    let i = choose|i: int|
        0 <= i < names.len() && InputKey::Env(#[trigger] names[i]) == InputKey::Env(name);
    assert(names[i] == name);
}

/// Where the inputs were checked, a modified file is the reason before a removed one,
/// that before a modified variable, and that before a removed one. All of its kind
/// are named. Where there is none of these, there is no reason.
pub proof fn checked_inputs_are_named_by_urgency(found: Seq<Checked>)
    ensures
        query::states_reason(found) == (if query::changed_files(found, Change::Modified).len() > 0 {
            Some(
                CacheMissReasonView::FilesModified {
                    paths: query::changed_files(found, Change::Modified),
                },
            )
        } else if query::changed_files(found, Change::Removed).len() > 0 {
            Some(
                CacheMissReasonView::FilesRemoved {
                    paths: query::changed_files(found, Change::Removed),
                },
            )
        } else if query::changed_envs(found, Change::Modified).len() > 0 {
            Some(
                CacheMissReasonView::EnvModified {
                    names: query::changed_envs(found, Change::Modified),
                },
            )
        } else if query::changed_envs(found, Change::Removed).len() > 0 {
            Some(
                CacheMissReasonView::EnvRemoved {
                    names: query::changed_envs(found, Change::Removed),
                },
            )
        } else {
            None
        }),
{
}

/// One input that was found modified or removed is enough to give a reason, and if it
/// is a file, one that names a file.
pub proof fn one_changed_input_gives_a_reason(found: Seq<Checked>, i: int)
    requires
        0 <= i < found.len(),
        found[i].state matches Some(FileStateView::Modified { .. }) || found[i].state == Some(
            FileStateView::Removed,
        ),
    ensures
        query::states_reason(found) is Some,
        found[i].input is File ==> (query::states_reason(found) matches Some(
            CacheMissReasonView::FilesModified { .. },
        ) || query::states_reason(found) matches Some(CacheMissReasonView::FilesRemoved { .. })),
        found[i].input is File && found[i].state is Some && !(found[i].state == Some(
            FileStateView::Removed,
        )) ==> query::states_reason(found) matches Some(CacheMissReasonView::FilesModified { .. }),
{
    let (before, after) = (found.take(i), found.skip(i + 1));
    let one = seq![found[i]];
    assert(found =~= before + one + after);
    crate::laws::lists::every_state_counts(found[i]);
    crate::laws::lists::all_states_count(before, one, Change::Modified);
    crate::laws::lists::all_states_count(before + one, after, Change::Modified);
    crate::laws::lists::all_states_count(before, one, Change::Removed);
    crate::laws::lists::all_states_count(before + one, after, Change::Removed);
}

/// Inputs of which none was found modified or removed give no reason.
pub proof fn unchanged_inputs_give_no_reason(found: Seq<Checked>)
    requires
        forall|i: int|
            0 <= i < found.len() ==> ((#[trigger] found[i]).state is None || found[i].state == Some(
                FileStateView::Unchanged,
            ) || found[i].state matches Some(FileStateView::MetadataModified { .. })),
    ensures
        query::states_reason(found) is None,
    decreases found.len(),
{
    if found.len() > 0 {
        let front = found.drop_last();
        assert forall|i: int| 0 <= i < front.len() implies ((#[trigger] front[i]).state is None
            || front[i].state == Some(FileStateView::Unchanged) || front[i].state matches Some(
            FileStateView::MetadataModified { .. },
        )) by {
            assert(found[i] == front[i]);
        }
        unchanged_inputs_give_no_reason(front);
        let last = found[found.len() - 1];
        assert(found =~= front + seq![last]);
        crate::laws::lists::every_state_counts(last);
        crate::laws::lists::all_states_count(front, seq![last], Change::Modified);
        crate::laws::lists::all_states_count(front, seq![last], Change::Removed);
    }
}

} // verus!
