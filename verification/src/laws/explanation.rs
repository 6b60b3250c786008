//! What holds of the reasons why the cache was not used.
use crate::digest;
use crate::input::{
    self, EnvInputView, FileInputDesc, FileInputView, InputIdentifierView, InputKey, InputView,
};
use crate::laws::checks;
use crate::miss::{self, CacheMissReasonView, Difference};
use crate::normal;
use crate::order::Comparison;
use crate::path;
use crate::query::{
    self, CacheCheckResult, CacheQuery, CachedEntry, Change, Checked, QueryConclusion,
};
use crate::state::{self, FileMetadata, FileState, FileStateView, InputError, PathContents};
use crate::table::{self, Known};
use crate::text;
use crate::time::Timestamp;
use vstd::prelude::*;

verus! {

/// What is known of the inputs of a list is known of those that occur in it.
pub proof fn known_inputs_occur(inputs: Seq<InputView>, key: InputKey)
    ensures
        table::by_identity(inputs).contains_key(key) <==> exists|i: int|
            0 <= i < inputs.len() && #[trigger] inputs[i].key() == key,
    decreases inputs.len(),
{
    if inputs.len() > 0 {
        let (front, last) = (inputs.drop_last(), inputs.last());
        known_inputs_occur(front, key);
        if exists|i: int| 0 <= i < front.len() && #[trigger] front[i].key() == key {
            let i = choose|i: int| 0 <= i < front.len() && #[trigger] front[i].key() == key;
            assert(inputs[i].key() == key);
        }
        if last.key() == key {
            assert(inputs[inputs.len() - 1].key() == key);
        }
        if exists|i: int| 0 <= i < inputs.len() && #[trigger] inputs[i].key() == key {
            let i = choose|i: int| 0 <= i < inputs.len() && #[trigger] inputs[i].key() == key;
            if i < front.len() {
                assert(front[i].key() == key);
            }
        }
    }
}

/// Dropping repetitions changes nothing about what is known.
pub proof fn repetitions_tell_nothing(inputs: Seq<InputView>)
    ensures
        table::by_identity(normal::deduped(inputs)) == table::by_identity(inputs),
    decreases inputs.len(),
{
    if inputs.len() > 0 {
        let (front, last) = (inputs.drop_last(), inputs.last());
        let rest = normal::deduped(front);
        repetitions_tell_nothing(front);
        if normal::deduped(inputs) == rest {
            let known = table::by_identity(rest);
            assert(last.key() == rest.last().key());
            assert(known.contains_key(last.key()));
            assert(known[last.key()].last == last.content_hash());
            assert(table::with_digest(known[last.key()].digests, last.content_hash())
                =~= known[last.key()].digests);
            assert(table::noted(known, last) =~= known);
        } else {
            assert(rest.push(last).drop_last() =~= rest);
        }
    }
}

/// The digests that are known of an input are those with which it occurs.
pub proof fn known_digests_occur(inputs: Seq<InputView>, key: InputKey, digest: Seq<char>)
    requires
        table::by_identity(inputs).contains_key(key),
    ensures
        table::by_identity(inputs)[key].digests.contains(digest) <==> exists|i: int|
            0 <= i < inputs.len() && #[trigger] inputs[i].key() == key && inputs[i].content_hash()
                == Some(digest),
    decreases inputs.len(),
{
    let (front, last) = (inputs.drop_last(), inputs.last());
    let known = table::by_identity(front);
    if known.contains_key(key) {
        known_digests_occur(front, key, digest);
        if known[key].digests.contains(digest) {
            let i = choose|i: int|
                0 <= i < front.len() && #[trigger] front[i].key() == key
                    && front[i].content_hash() == Some(digest);
            assert(inputs[i].key() == key);
        }
    }
    if last.key() == key {
        assert(inputs[inputs.len() - 1].key() == key);
    }
    if exists|i: int|
        0 <= i < inputs.len() && #[trigger] inputs[i].key() == key && inputs[i].content_hash()
            == Some(digest) {
        let i = choose|i: int|
            0 <= i < inputs.len() && #[trigger] inputs[i].key() == key && inputs[i].content_hash()
                == Some(digest);
        if i < front.len() {
            assert(front[i].key() == key);
            known_inputs_occur(front, key);
        }
    }
}

/// What is known of a variable comes from the last description of it.
proof fn variable_by_ties(inputs: Seq<InputView>, x: EnvInputView)
    ensures
        ({
            let known = table::by_identity(inputs);
            let key = InputKey::Env(x.name);
            let ties = normal::tied(inputs, InputView::Env(x));
            &&& known.contains_key(key) <==> ties.len() > 0
            &&& known.contains_key(key) ==> known[key].last == ties.last().content_hash()
        }),
    decreases inputs.len(),
{
    if inputs.len() > 0 {
        variable_by_ties(inputs.drop_last(), x);
        text::text_order_is_total();
        let texts = |a: Seq<char>, b: Seq<char>| text::text_order(a, b);
        match inputs.last() {
            InputView::Env(env) => {
                assert((texts(x.name, env.name) == Comparison::Equal) == (x.name == env.name));
            },
            InputView::File(_) => {},
        }
    }
}

proof fn files_are_not_tied_with_variables(files: Seq<InputView>, x: EnvInputView)
    requires
        forall|i: int| 0 <= i < files.len() ==> #[trigger] files[i] is File,
    ensures
        normal::tied(files, InputView::Env(x)) == Seq::<InputView>::empty(),
    decreases files.len(),
{
    if files.len() > 0 {
        let front = files.drop_last();
        assert forall|i: int| 0 <= i < front.len() implies #[trigger] front[i] is File by {
            assert(files[i] is File);
        }
        assert(files[files.len() - 1] is File);
        files_are_not_tied_with_variables(front, x);
    }
}

/// Where the digest of the inputs changed because files are tracked beyond the
/// recorded ones, the reason is never that an input was removed, and never a
/// variable.
pub proof fn tracking_files_is_explained_by_files(
    old: Seq<InputView>,
    extra: Seq<InputView>,
    reason: CacheMissReasonView,
)
    requires
        forall|i: int| 0 <= i < extra.len() ==> #[trigger] extra[i] is File,
        miss::explains(
            reason,
            table::by_identity(old),
            table::by_identity(query::current_inputs(old, extra)),
        ),
    ensures
        reason is FilesModified || reason is InputsChanged,
{
    let all = old + extra;
    let list = normal::sorted(all);
    let before = table::by_identity(old);
    let after = table::by_identity(query::current_inputs(old, extra));
    normal::sorted_is_in_order(all);
    repetitions_tell_nothing(list);
    assert forall|key: InputKey| #[trigger] before.contains_key(key) implies after.contains_key(
        key,
    ) by {
        known_inputs_occur(old, key);
        let i = choose|i: int| 0 <= i < old.len() && #[trigger] old[i].key() == key;
        assert(all[i] == old[i]);
        normal::same_up_to_order_contains(all, list, all[i]);
        let k = choose|k: int| 0 <= k < list.len() && list[k] == all[i];
        assert(list[k].key() == key);
        known_inputs_occur(list, key);
    }
    assert forall|key: InputKey| key is Env && #[trigger] after.contains_key(key) implies {
        &&& before.contains_key(key)
        &&& before[key].last == after[key].last
    } by {
        let x = EnvInputView { name: key->Env_0, content_hash: None };
        variable_by_ties(old, x);
        variable_by_ties(list, x);
        files_are_not_tied_with_variables(extra, x);
        normal::tied_concat(old, extra, InputView::Env(x));
        assert(normal::tied(list, InputView::Env(x)) == normal::tied(all, InputView::Env(x)));
        let ties = normal::tied(old, InputView::Env(x));
        assert(ties + Seq::<InputView>::empty() =~= ties);
    }
    assert(forall|key: InputKey| !#[trigger] miss::differs(before, after, Difference::Absent, key));
    assert(forall|key: InputKey|
        key is Env ==> !#[trigger] miss::differs(after, before, Difference::Absent, key));
    assert(forall|key: InputKey|
        key is Env ==> !#[trigger] miss::differs(after, before, Difference::OtherContents, key));
}

/// A recorded file that is watched and has a digest with which it is not recorded is
/// reported as modified, whenever it was modified.
pub proof fn modified_watched_files_are_reported(
    old: Seq<InputView>,
    extra: Seq<InputView>,
    x: InputView,
    digest: Seq<char>,
    reason: CacheMissReasonView,
)
    requires
        extra.contains(x),
        x is File,
        table::by_identity(old).contains_key(x.key()),
        x.content_hash() == Some(digest),
        !table::by_identity(old)[x.key()].digests.contains(digest),
        miss::explains(
            reason,
            table::by_identity(old),
            table::by_identity(query::current_inputs(old, extra)),
        ),
    ensures
        reason matches CacheMissReasonView::FilesModified { paths } && exists|i: int|
            0 <= i < paths.len() && #[trigger] miss::file_key(paths[i]) == x.key(),
{
    let before = table::by_identity(old);
    let after = table::by_identity(query::current_inputs(old, extra));
    let k = choose|k: int| 0 <= k < extra.len() && extra[k] == x;
    let all = old + extra;
    let list = normal::sorted(all);
    assert(all[old.len() + k] == x);
    normal::sorted_is_in_order(all);
    normal::same_up_to_order_contains(all, list, x);
    repetitions_tell_nothing(list);
    let i = choose|i: int| 0 <= i < list.len() && list[i] == x;
    assert(list[i].key() == x.key());
    known_inputs_occur(list, x.key());
    known_digests_occur(list, x.key(), digest);
    assert(after[x.key()].digests.contains(digest));
    assert(miss::differs(after, before, Difference::OtherContents, x.key()));
}

/// Where one file is recorded, it alone is watched, and it has other contents now, a
/// changed digest is explained by this file.
proof fn the_one_watched_file_explains(
    file: FileInputView,
    now: FileInputView,
    reason: CacheMissReasonView,
)
    requires
        now.path == file.path,
        now.content_hash is Some,
        now.content_hash != file.content_hash,
        miss::explains(
            reason,
            table::by_identity(seq![InputView::File(file)]),
            table::by_identity(
                query::current_inputs(seq![InputView::File(file)], seq![InputView::File(now)]),
            ),
        ),
    ensures
        reason == (CacheMissReasonView::FilesModified { paths: seq![file.path] }),
{
    let (a, b) = (InputView::File(file), InputView::File(now));
    let (old, extra) = (seq![a], seq![b]);
    let all = old + extra;
    let list = normal::sorted(all);
    let before = table::by_identity(old);
    let after = table::by_identity(query::current_inputs(old, extra));
    let key = a.key();
    assert(old[0].key() == key);
    known_inputs_occur(old, key);
    let digest = now.content_hash.unwrap();
    known_digests_occur(old, key, digest);
    assert(extra[0] == b);
    modified_watched_files_are_reported(old, extra, b, digest, reason);
    let paths = reason->FilesModified_paths;
    normal::sorted_is_in_order(all);
    repetitions_tell_nothing(list);
    assert forall|i: int| #![trigger list[i]] 0 <= i < list.len() implies list[i].identifier()
        == a.identifier() by {
        assert(list.contains(list[i]));
        normal::same_up_to_order_contains(list, all, list[i]);
    }
    assert forall|other: InputKey| #[trigger] after.contains_key(other) implies other == key by {
        known_inputs_occur(list, other);
    }
    assert(miss::lists_files(paths, after, before, Difference::OtherContents));
    if paths.len() > 1 {
        assert(miss::differs(after, before, Difference::OtherContents, miss::file_key(paths[0])));
        assert(miss::differs(after, before, Difference::OtherContents, miss::file_key(paths[1])));
        assert(path::path_order(paths[0], paths[1]) == Comparison::Less);
        path::components_order_is_total();
    }
    identified_as_all(list, a.identifier());
    assert(after[key].identifier == InputIdentifierView::File(paths[0]));
    assert(paths =~= seq![file.path]);
}

proof fn identified_as_all(inputs: Seq<InputView>, identifier: InputIdentifierView)
    requires
        forall|i: int| #![trigger inputs[i]] 0 <= i < inputs.len() ==> inputs[i].identifier() == identifier,
    ensures
        table::by_identity(inputs).contains_key(identifier.key()) ==> table::by_identity(
            inputs,
        )[identifier.key()].identifier == identifier,
    decreases inputs.len(),
{
    if inputs.len() > 0 {
        let front = inputs.drop_last();
        assert forall|i: int| #![trigger front[i]] 0 <= i < front.len() implies front[i].identifier()
            == identifier by {
            assert(inputs[i] == front[i]);
        }
        identified_as_all(front, identifier);
    }
}

/// Two descriptions of one file with different contents are both in the normal form.
proof fn both_descriptions_stay(a: FileInputView, b: FileInputView)
    requires
        a.path == b.path,
        a.content_hash != b.content_hash,
    ensures
        ({
            let (x, y) = (InputView::File(a), InputView::File(b));
            let current = query::current_inputs(seq![x], seq![y]);
            current == seq![x, y] || current == seq![y, x]
        }),
{
    let (x, y) = (InputView::File(a), InputView::File(b));
    let all = seq![x] + seq![y];
    assert(all.drop_last() =~= seq![x]);
    assert(seq![x].drop_last() =~= Seq::empty());
    assert(normal::sorted(Seq::empty()) =~= Seq::empty());
    assert(normal::sorted(seq![x]) =~= seq![x]);
    assert(normal::inserted(seq![x].drop_last(), y) =~= seq![y]);
    let list = normal::sorted(all);
    assert(list =~= seq![x, y] || list =~= seq![y, x]);
    assert(normal::deduped(Seq::empty()) =~= Seq::<InputView>::empty());
    assert(list.drop_last().drop_last() =~= Seq::empty());
    assert(normal::deduped(list.drop_last()) =~= seq![list[0]]);
    assert(normal::deduped(list) =~= list);
}

/// The recorded file is found modified, where the system shows what `desc` says.
proof fn the_recorded_file_is_found_modified<H: Fn(&str) -> String>(
    hash: H,
    digest: spec_fn(Seq<char>) -> Seq<char>,
    file: FileInputView,
    contents: PathContents,
    time: Timestamp,
    desc: FileInputDesc,
    metadata: FileMetadata,
    state: Option<FileStateView>,
)
    requires
        digest::computes(hash, digest),
        state::file_described(hash, file.path, contents, time, Ok(desc)),
        metadata.modified_at == Ok::<Timestamp, String>(time),
        metadata.is_directory == (contents is Directory),
        file.is_directory == desc@.is_directory,
        desc@.content_hash is Some,
        desc@.content_hash != file.content_hash,
        desc@.modified_at != file.modified_at,
        checks::file_checked(hash, file, Some(metadata), contents, state),
    ensures
        state matches Some(FileStateView::Modified { .. }),
{
    let modified_at = time.whole_second();
    let result = choose|result: Result<FileState, InputError>|
        {
            &&& #[trigger] state::contents_checked(hash, file, modified_at, contents, result)
            &&& state == query::told(result)
        };
    let new_hash = choose|new_hash: Seq<char>|
        {
            &&& #[trigger] state::digest_stands_for(hash, contents, Some(new_hash))
            &&& result->Ok_0@ == state::state_by_contents(file, modified_at, new_hash)
        };
    if let PathContents::Directory { entries } = contents {
        let listing = state::listing(entries@);
        digest::hashes_to_digest(hash, digest, listing, new_hash);
        digest::hashes_to_digest(hash, digest, listing, desc@.content_hash.unwrap());
    }
}

/// What a lookup answers: at once, or after the inputs were checked.
pub open spec fn answer(query: CacheQuery, conclusion: QueryConclusion) -> CacheCheckResult {
    match query {
        CacheQuery::Miss(reason) => CacheCheckResult::Miss(reason),
        CacheQuery::CheckInputs { .. } => conclusion.result,
    }
}

/// The file was modified at another second than recorded, and is a directory if and
/// only if it was one.
pub open spec fn touched(file: FileInputView, now: FileInputView) -> bool {
    now.modified_at != file.modified_at && now.is_directory == file.is_directory
}

/// The digest of the recorded and the current description of a file is the recorded
/// one.
pub open spec fn digest_coincides(
    digest: spec_fn(Seq<char>) -> Seq<char>,
    entry: CachedEntry,
    file: FileInputView,
    now: FileInputView,
) -> bool {
    let current = query::current_inputs(seq![InputView::File(file)], seq![InputView::File(now)]);
    digest(input::hash_source(current)) == entry.command.input_hash@
}

/// Where a command is recorded with one file, this file alone is watched, and it has
/// other contents now, the cache is not used because this file was modified.
///
/// The file is described (`desc`) and, where it comes to that, each input is checked
/// once (`found`), while the system shows the same `metadata` and `contents`. Either
/// the file was modified at another second than recorded and is a directory if it was
/// one, or the digest that stands for the inputs is another than the recorded one.
pub proof fn the_one_watched_file_is_reported<H: Fn(&str) -> String>(
    hash: H,
    digest: spec_fn(Seq<char>) -> Seq<char>,
    entry: CachedEntry,
    file: FileInputView,
    contents: PathContents,
    time: Timestamp,
    desc: FileInputDesc,
    metadata: FileMetadata,
    query: CacheQuery,
    found: Seq<Checked>,
    conclusion: QueryConclusion,
)
    requires
        digest::computes(hash, digest),
        query::recorded_inputs(entry) == seq![InputView::File(file)],
        state::file_described(hash, file.path, contents, time, Ok(desc)),
        metadata.modified_at == Ok::<Timestamp, String>(time),
        metadata.is_directory == (contents is Directory),
        desc@.content_hash is Some,
        desc@.content_hash != file.content_hash,
        touched(file, desc@) || !digest_coincides(digest, entry, file, desc@),
        query::database_tells(hash, Some(entry), seq![InputView::File(desc@)], query),
        query matches CacheQuery::CheckInputs { command, inputs } ==> {
            &&& found.len() == inputs@.len()
            &&& forall|k: int|
                0 <= k < inputs@.len() ==> exists|i: int|
                    0 <= i < found.len() && (#[trigger] found[i]).input == (
                    #[trigger] inputs@[k])@
            &&& forall|i: int|
                0 <= i < found.len() ==> ((#[trigger] found[i]).input matches InputView::File(
                    checked,
                ) ==> checks::file_checked(hash, checked, Some(metadata), contents, found[i].state))
            &&& query::concludes(conclusion, command, input::views(inputs@), found)
        },
    ensures
        answer(query, conclusion) matches CacheCheckResult::Miss(reason) && reason@ == (
        CacheMissReasonView::FilesModified { paths: seq![file.path] }),
{
    let now = desc@;
    let (x, y) = (InputView::File(file), InputView::File(now));
    let current = query::current_inputs(seq![x], seq![y]);
    match query {
        CacheQuery::Miss(reason) => {
            the_one_watched_file_explains(file, now, reason@);
        },
        CacheQuery::CheckInputs { command, inputs } => {
            digest::hashes_to_digest(
                hash,
                digest,
                input::hash_source(current),
                entry.command.input_hash@,
            );
            both_descriptions_stay(file, now);
            let models = input::views(inputs@);
            assert(models == current);
            assert(models.len() == 2 && inputs@.len() == 2);
            assert(models[0] == inputs@[0]@ && models[1] == inputs@[1]@);
            let i = choose|i: int| 0 <= i < found.len() && found[i].input == inputs@[0]@;
            let j = choose|j: int| 0 <= j < found.len() && found[j].input == inputs@[1]@;
            assert(found[i].input == inputs@[0]@ && found[j].input == inputs@[1]@);
            assert(i != j);
            let at = if inputs@[0]@ == x { i } else { j };
            assert(found[at].input == x && found[1 - at].input == y);
            the_recorded_file_is_found_modified(
                hash,
                digest,
                file,
                contents,
                time,
                desc,
                metadata,
                found[at].state,
            );
            assert(found[1 - at].state == Some(FileStateView::Unchanged));
            reveal_with_fuel(query::changed_files, 3);
            let changed = query::changed_files(found, Change::Modified);
            assert(found.drop_last().drop_last().len() == 0);
            assert(found.drop_last().last() == found[0]);
            assert(changed =~= seq![file.path]);
        },
    }
}

/// The keys come in order, each once.
spec fn increasing(keys: Seq<InputKey>) -> bool {
    forall|i: int, j: int|
        0 <= i < j < keys.len() ==> #[trigger] input::key_order(keys[i], keys[j])
            == Comparison::Less
}

proof fn never_less_both_ways(a: InputKey, b: InputKey)
    ensures
        !(input::key_order(a, b) == Comparison::Less && input::key_order(b, a)
            == Comparison::Less),
{
    normal::key_order_is_total();
    let keys = |a: InputKey, b: InputKey| input::key_order(a, b);
    assert(keys(a, b) == keys(b, a).flip());
}

proof fn front_increasing(keys: Seq<InputKey>)
    requires
        increasing(keys),
        keys.len() > 0,
    ensures
        increasing(keys.drop_last()),
        forall|key: InputKey| #[trigger]
            keys.drop_last().contains(key) <==> keys.contains(key) && key != keys.last(),
{
    let front = keys.drop_last();
    let n = keys.len() - 1;
    assert forall|i: int, j: int| 0 <= i < j < front.len() implies #[trigger] input::key_order(
        front[i],
        front[j],
    ) == Comparison::Less by {
        assert(input::key_order(keys[i], keys[j]) == Comparison::Less);
    }
    assert forall|key: InputKey| #[trigger]
        front.contains(key) <==> keys.contains(key) && key != keys.last() by {
        if front.contains(key) {
            let k = choose|k: int| 0 <= k < front.len() && front[k] == key;
            assert(keys[k] == key);
            assert(input::key_order(keys[k], keys[n]) == Comparison::Less);
            never_less_both_ways(keys[k], keys[n]);
        }
        if keys.contains(key) && key != keys.last() {
            let k = choose|k: int| 0 <= k < keys.len() && keys[k] == key;
            assert(front[k] == key);
        }
    }
}

proof fn increasing_lists_agree(a: Seq<InputKey>, b: Seq<InputKey>)
    requires
        increasing(a),
        increasing(b),
        forall|key: InputKey| #[trigger] a.contains(key) <==> b.contains(key),
    ensures
        a == b,
    decreases a.len(),
{
    if a.len() == 0 {
        if b.len() > 0 {
            assert(b.contains(b[0]));
            assert(a.contains(b[0]));
        }
    } else {
        let n = a.len() - 1;
        let m = b.len() - 1;
        assert(a.contains(a[n]));
        assert(b.contains(a[n]));
        assert(b.contains(b[m]));
        assert(a.contains(b[m]));
        let i = choose|i: int| 0 <= i < b.len() && b[i] == a[n];
        let j = choose|j: int| 0 <= j < a.len() && a[j] == b[m];
        if i < m && j < n {
            assert(input::key_order(b[i], b[m]) == Comparison::Less);
            assert(input::key_order(a[j], a[n]) == Comparison::Less);
            never_less_both_ways(a[n], b[m]);
        }
        assert(a[n] == b[m]);
        front_increasing(a);
        front_increasing(b);
        increasing_lists_agree(a.drop_last(), b.drop_last());
        assert(a =~= a.drop_last().push(a[n]));
        assert(b =~= b.drop_last().push(b[m]));
    }
}

proof fn file_lists_agree(
    a: Seq<Seq<u8>>,
    b: Seq<Seq<u8>>,
    list: Map<InputKey, Known>,
    other: Map<InputKey, Known>,
    difference: Difference,
)
    requires
        miss::lists_files(a, list, other, difference),
        miss::lists_files(b, list, other, difference),
    ensures
        a == b,
{
    let x = a.map_values(|path: Seq<u8>| miss::file_key(path));
    let y = b.map_values(|path: Seq<u8>| miss::file_key(path));
    assert forall|i: int, j: int| 0 <= i < j < x.len() implies #[trigger] input::key_order(
        x[i],
        x[j],
    ) == Comparison::Less by {
        assert(path::path_order(a[i], a[j]) == Comparison::Less);
    }
    assert forall|i: int, j: int| 0 <= i < j < y.len() implies #[trigger] input::key_order(
        y[i],
        y[j],
    ) == Comparison::Less by {
        assert(path::path_order(b[i], b[j]) == Comparison::Less);
    }
    assert forall|key: InputKey| #[trigger] x.contains(key) <==> y.contains(key) by {
        if x.contains(key) {
            let k = choose|k: int| 0 <= k < x.len() && x[k] == key;
            assert(miss::differs(list, other, difference, miss::file_key(a[k])));
            let q = choose|q: int| 0 <= q < b.len() && #[trigger] miss::file_key(b[q]) == key;
            assert(y[q] == key);
        }
        if y.contains(key) {
            let k = choose|k: int| 0 <= k < y.len() && y[k] == key;
            assert(miss::differs(list, other, difference, miss::file_key(b[k])));
            let q = choose|q: int| 0 <= q < a.len() && #[trigger] miss::file_key(a[q]) == key;
            assert(x[q] == key);
        }
    }
    increasing_lists_agree(x, y);
    assert forall|i: int| 0 <= i < a.len() implies a[i] == b[i] by {
        assert(x[i] == y[i]);
        assert(list[miss::file_key(a[i])].identifier == InputIdentifierView::File(a[i]));
        assert(list[miss::file_key(b[i])].identifier == InputIdentifierView::File(b[i]));
    }
    assert(x.len() == y.len());
    assert(a =~= b);
}

proof fn env_lists_agree(
    a: Seq<Seq<char>>,
    b: Seq<Seq<char>>,
    list: Map<InputKey, Known>,
    other: Map<InputKey, Known>,
    difference: Difference,
)
    requires
        miss::lists_envs(a, list, other, difference),
        miss::lists_envs(b, list, other, difference),
    ensures
        a == b,
{
    let x = a.map_values(|name: Seq<char>| InputKey::Env(name));
    let y = b.map_values(|name: Seq<char>| InputKey::Env(name));
    assert forall|i: int, j: int| 0 <= i < j < x.len() implies #[trigger] input::key_order(
        x[i],
        x[j],
    ) == Comparison::Less by {
        assert(text::text_order(a[i], a[j]) == Comparison::Less);
    }
    assert forall|i: int, j: int| 0 <= i < j < y.len() implies #[trigger] input::key_order(
        y[i],
        y[j],
    ) == Comparison::Less by {
        assert(text::text_order(b[i], b[j]) == Comparison::Less);
    }
    assert forall|key: InputKey| #[trigger] x.contains(key) <==> y.contains(key) by {
        if x.contains(key) {
            let k = choose|k: int| 0 <= k < x.len() && x[k] == key;
            assert(miss::differs(list, other, difference, InputKey::Env(a[k])));
            let q = choose|q: int| 0 <= q < b.len() && InputKey::Env(#[trigger] b[q]) == key;
            assert(y[q] == key);
        }
        if y.contains(key) {
            let k = choose|k: int| 0 <= k < y.len() && y[k] == key;
            assert(miss::differs(list, other, difference, InputKey::Env(b[k])));
            let q = choose|q: int| 0 <= q < a.len() && InputKey::Env(#[trigger] a[q]) == key;
            assert(x[q] == key);
        }
    }
    increasing_lists_agree(x, y);
    assert forall|i: int| 0 <= i < a.len() implies a[i] == b[i] by {
        assert(x[i] == y[i]);
    }
    assert(x.len() == y.len());
    assert(a =~= b);
}

/// Two lists of inputs have one explanation of how they differ.
pub proof fn the_explanation_is_unique(
    a: CacheMissReasonView,
    b: CacheMissReasonView,
    old: Map<InputKey, Known>,
    new: Map<InputKey, Known>,
)
    requires
        miss::explains(a, old, new),
        miss::explains(b, old, new),
    ensures
        a == b,
{
    match (a, b) {
        (
            CacheMissReasonView::FilesModified { paths: x },
            CacheMissReasonView::FilesModified { paths: y },
        ) => {
            if miss::some_file_differs(new, old, Difference::OtherContents) {
                file_lists_agree(x, y, new, old, Difference::OtherContents);
            } else {
                file_lists_agree(x, y, new, old, Difference::Absent);
            }
        },
        (
            CacheMissReasonView::FilesRemoved { paths: x },
            CacheMissReasonView::FilesRemoved { paths: y },
        ) => {
            file_lists_agree(x, y, old, new, Difference::Absent);
        },
        (
            CacheMissReasonView::EnvModified { names: x },
            CacheMissReasonView::EnvModified { names: y },
        ) => {
            if miss::some_env_differs(new, old, Difference::OtherContents) {
                env_lists_agree(x, y, new, old, Difference::OtherContents);
            } else {
                env_lists_agree(x, y, new, old, Difference::Absent);
            }
        },
        (
            CacheMissReasonView::EnvRemoved { names: x },
            CacheMissReasonView::EnvRemoved { names: y },
        ) => {
            env_lists_agree(x, y, old, new, Difference::Absent);
        },
        _ => {},
    }
}

} // verus!
