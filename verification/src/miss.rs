//! Why the cache was not used.
use crate::digest::same_digest;
use crate::input::{self, Input, InputIdentifierView, InputKey};
use crate::order::Comparison;
use crate::path::{self, FilePath};
use crate::table::{self, Entry, InputTable, Known};
use crate::text::{self, append_decimal, join};
use vstd::prelude::*;
use vstd::string::*;

verus! {

/// Reason why the eval cache was not used.
#[derive(Debug)]
pub enum CacheMissReason {
    /// Command was not found in the cache (first run).
    NotCached,
    /// One or more file inputs were modified.
    FilesModified { paths: Vec<FilePath> },
    /// One or more file inputs were removed.
    FilesRemoved { paths: Vec<FilePath> },
    /// One or more environment variables were modified.
    EnvModified { names: Vec<String> },
    /// One or more environment variables were removed.
    EnvRemoved { names: Vec<String> },
    /// The set of tracked inputs changed.
    InputsChanged,
}

/// The model of a [`CacheMissReason`].
#[verifier::ext_equal]
pub enum CacheMissReasonView {
    NotCached,
    FilesModified { paths: Seq<Seq<u8>> },
    FilesRemoved { paths: Seq<Seq<u8>> },
    EnvModified { names: Seq<Seq<char>> },
    EnvRemoved { names: Seq<Seq<char>> },
    InputsChanged,
}

/// The spellings of a list of paths.
pub open spec fn spellings(paths: Seq<FilePath>) -> Seq<Seq<u8>> {
    paths.map_values(|path: FilePath| path@)
}

impl View for CacheMissReason {
    type V = CacheMissReasonView;

    open spec fn view(&self) -> CacheMissReasonView {
        match *self {
            CacheMissReason::NotCached => CacheMissReasonView::NotCached,
            CacheMissReason::FilesModified { paths } => CacheMissReasonView::FilesModified {
                paths: spellings(paths@),
            },
            CacheMissReason::FilesRemoved { paths } => CacheMissReasonView::FilesRemoved {
                paths: spellings(paths@),
            },
            CacheMissReason::EnvModified { names } => CacheMissReasonView::EnvModified {
                names: text::texts_of(names@),
            },
            CacheMissReason::EnvRemoved { names } => CacheMissReasonView::EnvRemoved {
                names: text::texts_of(names@),
            },
            CacheMissReason::InputsChanged => CacheMissReasonView::InputsChanged,
        }
    }
}

/// Paths as text.
pub open spec fn path_texts(paths: Seq<Seq<u8>>) -> Seq<Seq<char>> {
    paths.map_values(|path: Seq<u8>| text::utf8_lossy(path))
}

/// A message about some things: one by itself, several with their number and
/// separated by commas.
pub open spec fn message(
    things: Seq<Seq<char>>,
    before_one: Seq<char>,
    after_one: Seq<char>,
    after_number: Seq<char>,
) -> Seq<char> {
    if things.len() == 1 {
        before_one + things[0] + after_one
    } else {
        text::decimal(things.len()) + after_number + text::joined(things, ", "@)
    }
}

impl CacheMissReasonView {
    /// The reason in words.
    pub open spec fn description(self) -> Seq<char> {
        match self {
            CacheMissReasonView::NotCached => "first evaluation"@,
            CacheMissReasonView::FilesModified { paths } => message(
                path_texts(paths),
                ""@,
                " modified"@,
                " files modified: "@,
            ),
            CacheMissReasonView::FilesRemoved { paths } => message(
                path_texts(paths),
                ""@,
                " removed"@,
                " files removed: "@,
            ),
            CacheMissReasonView::EnvModified { names } => message(
                names,
                "environment variable "@,
                " changed"@,
                " environment variables changed: "@,
            ),
            CacheMissReasonView::EnvRemoved { names } => message(
                names,
                "environment variable "@,
                " removed"@,
                " environment variables removed: "@,
            ),
            CacheMissReasonView::InputsChanged => "tracked inputs changed"@,
        }
    }
}

fn write_message(
    things: &Vec<String>,
    before_one: &str,
    after_one: &str,
    after_number: &str,
) -> (result: String)
    ensures
        result@ == message(text::texts_of(things@), before_one@, after_one@, after_number@),
{
    let mut result = String::new();
    if things.len() == 1 {
        result.append(before_one);
        result.append(things[0].as_str());
        result.append(after_one);
        assert(result@ =~= before_one@ + things@[0]@ + after_one@);
    } else {
        append_decimal(&mut result, things.len());
        result.append(after_number);
        let list = join(things, ", ");
        result.append(list.as_str());
        assert(result@ =~= text::decimal(things@.len()) + after_number@ + list@);
    }
    result
}

fn display_paths(paths: &Vec<FilePath>) -> (result: Vec<String>)
    ensures
        text::texts_of(result@) == path_texts(spellings(paths@)),
{
    let mut result: Vec<String> = Vec::new();
    let mut i: usize = 0;
    while i < paths.len()
        invariant
            i <= paths@.len(),
            result@.len() == i,
            forall|j: int|
                0 <= j < i ==> (#[trigger] result@[j])@ == text::utf8_lossy(paths@[j]@),
        decreases paths@.len() - i,
    {
        result.push(paths[i].display());
        i += 1;
    }
    assert(text::texts_of(result@) =~= path_texts(spellings(paths@)));
    result
}

impl CacheMissReason {
    /// The reason in words.
    pub fn describe(&self) -> (result: String)
        ensures
            result@ == self@.description(),
    {
        match self {
            CacheMissReason::NotCached => "first evaluation".to_owned(),
            CacheMissReason::FilesModified { paths } => write_message(
                &display_paths(paths),
                "",
                " modified",
                " files modified: ",
            ),
            CacheMissReason::FilesRemoved { paths } => write_message(
                &display_paths(paths),
                "",
                " removed",
                " files removed: ",
            ),
            CacheMissReason::EnvModified { names } => write_message(
                names,
                "environment variable ",
                " changed",
                " environment variables changed: ",
            ),
            CacheMissReason::EnvRemoved { names } => write_message(
                names,
                "environment variable ",
                " removed",
                " environment variables removed: ",
            ),
            CacheMissReason::InputsChanged => "tracked inputs changed".to_owned(),
        }
    }
}

fn copy_paths(paths: &Vec<FilePath>) -> (result: Vec<FilePath>)
    ensures
        spellings(result@) == spellings(paths@),
{
    let mut result: Vec<FilePath> = Vec::new();
    let mut i: usize = 0;
    while i < paths.len()
        invariant
            i <= paths@.len(),
            result@.len() == i,
            forall|j: int| 0 <= j < i ==> (#[trigger] result@[j])@ == paths@[j]@,
        decreases paths@.len() - i,
    {
        result.push(paths[i].clone());
        i += 1;
    }
    assert(spellings(result@) =~= spellings(paths@));
    result
}

fn copy_names(names: &Vec<String>) -> (result: Vec<String>)
    ensures
        text::texts_of(result@) == text::texts_of(names@),
{
    let mut result: Vec<String> = Vec::new();
    let mut i: usize = 0;
    while i < names.len()
        invariant
            i <= names@.len(),
            result@.len() == i,
            forall|j: int| 0 <= j < i ==> (#[trigger] result@[j])@ == names@[j]@,
        decreases names@.len() - i,
    {
        result.push(names[i].clone());
        i += 1;
    }
    assert(text::texts_of(result@) =~= text::texts_of(names@));
    result
}

impl Clone for CacheMissReason {
    fn clone(&self) -> (result: CacheMissReason)
        ensures
            result@ == self@,
    {
        match self {
            CacheMissReason::NotCached => CacheMissReason::NotCached,
            CacheMissReason::FilesModified { paths } => CacheMissReason::FilesModified {
                paths: copy_paths(paths),
            },
            CacheMissReason::FilesRemoved { paths } => CacheMissReason::FilesRemoved {
                paths: copy_paths(paths),
            },
            CacheMissReason::EnvModified { names } => CacheMissReason::EnvModified {
                names: copy_names(names),
            },
            CacheMissReason::EnvRemoved { names } => CacheMissReason::EnvRemoved {
                names: copy_names(names),
            },
            CacheMissReason::InputsChanged => CacheMissReason::InputsChanged,
        }
    }
}

/// How what one list says of an input may stand to what another says.
#[derive(Clone, Copy, Debug, PartialEq, Eq, Structural)]
pub enum Difference {
    /// The other list has the input, but with other contents last, or it does not have
    /// a file with some digest that the list has it with.
    OtherContents,
    /// The other list does not have the input.
    Absent,
}

/// The input of the first list differs in this way in the second.
pub open spec fn differs(
    list: Map<InputKey, Known>,
    other: Map<InputKey, Known>,
    difference: Difference,
    key: InputKey,
) -> bool {
    &&& list.contains_key(key)
    &&& match difference {
        Difference::OtherContents => {
            &&& other.contains_key(key)
            &&& {
                ||| other[key].last != list[key].last
                ||| key is File && !list[key].digests.subset_of(other[key].digests)
            }
        },
        Difference::Absent => !other.contains_key(key),
    }
}

/// Some file of the first list differs in this way in the second.
pub open spec fn some_file_differs(
    list: Map<InputKey, Known>,
    other: Map<InputKey, Known>,
    difference: Difference,
) -> bool {
    exists|key: InputKey| key is File && #[trigger] differs(list, other, difference, key)
}

/// Some variable of the first list differs in this way in the second.
pub open spec fn some_env_differs(
    list: Map<InputKey, Known>,
    other: Map<InputKey, Known>,
    difference: Difference,
) -> bool {
    exists|key: InputKey| key is Env && #[trigger] differs(list, other, difference, key)
}

/// The key of the file with this path.
pub open spec fn file_key(path: Seq<u8>) -> InputKey {
    InputKey::File(path::components(path))
}

/// `paths` are the files of the first list that differ in this way in the second,
/// each once, in order, as the first list spells them first.
pub open spec fn lists_files(
    paths: Seq<Seq<u8>>,
    list: Map<InputKey, Known>,
    other: Map<InputKey, Known>,
    difference: Difference,
) -> bool {
    &&& forall|i: int|
        #![trigger paths[i]]
        0 <= i < paths.len() ==> differs(list, other, difference, file_key(paths[i]))
            && list[file_key(paths[i])].identifier == InputIdentifierView::File(paths[i])
    &&& forall|key: InputKey|
        key is File && #[trigger] differs(list, other, difference, key) ==> exists|i: int|
            0 <= i < paths.len() && #[trigger] file_key(paths[i]) == key
    &&& forall|i: int, j: int|
        0 <= i < j < paths.len() ==> #[trigger] path::path_order(paths[i], paths[j])
            == Comparison::Less
}

/// `names` are the variables of the first list that differ in this way in the
/// second, each once, in order.
pub open spec fn lists_envs(
    names: Seq<Seq<char>>,
    list: Map<InputKey, Known>,
    other: Map<InputKey, Known>,
    difference: Difference,
) -> bool {
    &&& forall|i: int|
        #![trigger names[i]]
        0 <= i < names.len() ==> differs(list, other, difference, InputKey::Env(names[i]))
    &&& forall|key: InputKey|
        key is Env && #[trigger] differs(list, other, difference, key) ==> exists|i: int|
            0 <= i < names.len() && InputKey::Env(#[trigger] names[i]) == key
    &&& forall|i: int, j: int|
        0 <= i < j < names.len() ==> #[trigger] text::text_order(names[i], names[j])
            == Comparison::Less
}

/// `reason` is the most relevant reason why the digest of the inputs changed, by
/// what the recorded and the current list say: files with other contents first,
/// then new ones, then missing ones, then variables in the same way. Where the
/// lists agree, it is that the inputs changed.
pub open spec fn explains(
    reason: CacheMissReasonView,
    old: Map<InputKey, Known>,
    new: Map<InputKey, Known>,
) -> bool {
    if some_file_differs(new, old, Difference::OtherContents) {
        reason matches CacheMissReasonView::FilesModified { paths } && lists_files(
            paths,
            new,
            old,
            Difference::OtherContents,
        )
    } else if some_file_differs(new, old, Difference::Absent) {
        reason matches CacheMissReasonView::FilesModified { paths } && lists_files(
            paths,
            new,
            old,
            Difference::Absent,
        )
    } else if some_file_differs(old, new, Difference::Absent) {
        reason matches CacheMissReasonView::FilesRemoved { paths } && lists_files(
            paths,
            old,
            new,
            Difference::Absent,
        )
    } else if some_env_differs(new, old, Difference::OtherContents) {
        reason matches CacheMissReasonView::EnvModified { names } && lists_envs(
            names,
            new,
            old,
            Difference::OtherContents,
        )
    } else if some_env_differs(new, old, Difference::Absent) {
        reason matches CacheMissReasonView::EnvModified { names } && lists_envs(
            names,
            new,
            old,
            Difference::Absent,
        )
    } else if some_env_differs(old, new, Difference::Absent) {
        reason matches CacheMissReasonView::EnvRemoved { names } && lists_envs(
            names,
            old,
            new,
            Difference::Absent,
        )
    } else {
        reason is InputsChanged
    }
}

fn same_content_hash(a: &Input, b: &Input) -> (result: bool)
    ensures
        result == (a@.content_hash() == b@.content_hash()),
{
    let (x, y) = match (a, b) {
        (Input::File(f), Input::File(g)) => (&f.content_hash, &g.content_hash),
        (Input::File(f), Input::Env(g)) => (&f.content_hash, &g.content_hash),
        (Input::Env(f), Input::File(g)) => (&f.content_hash, &g.content_hash),
        (Input::Env(f), Input::Env(g)) => (&f.content_hash, &g.content_hash),
    };
    same_digest(x, y)
}

/// Whether some of the inputs has the same contents.
fn some_has_contents(inputs: &Vec<&Input>, input: &Input) -> (result: bool)
    ensures
        result == exists|k: int|
            0 <= k < inputs@.len() && (#[trigger] inputs@[k])@.content_hash()
                == input@.content_hash(),
{
    let mut i: usize = 0;
    while i < inputs.len()
        invariant
            i <= inputs@.len(),
            forall|k: int|
                0 <= k < i ==> (#[trigger] inputs@[k])@.content_hash() != input@.content_hash(),
        decreases inputs@.len() - i,
    {
        if same_content_hash(inputs[i], input) {
            assert(inputs@[i as int]@.content_hash() == input@.content_hash());
            return true;
        }
        i += 1;
    }
    false
}

/// Whether every digest of one list is in the other.
fn digests_within(some: &Vec<&Input>, others: &Vec<&Input>) -> (result: bool)
    ensures
        result == table::digests_of(some@).subset_of(table::digests_of(others@)),
{
    let mut i: usize = 0;
    while i < some.len()
        invariant
            i <= some@.len(),
            forall|k: int|
                #![trigger some@[k]]
                0 <= k < i ==> (some@[k]@.content_hash() matches Some(digest)
                    ==> table::digests_of(others@).contains(digest)),
        decreases some@.len() - i,
    {
        if let Some(digest) = some[i].content_hash() {
            proof {
                table::digests_of_each(some@, digest@);
                table::digests_of_each(others@, digest@);
                assert(some@[i as int]@.content_hash() == Some(digest@));
            }
            if !some_has_contents(others, some[i]) {
                return false;
            }
        }
        i += 1;
    }
    assert forall|digest: Seq<char>| #[trigger]
        table::digests_of(some@).contains(digest) implies table::digests_of(others@).contains(
        digest,
    ) by {
        table::digests_of_each(some@, digest);
    }
    true
}

/// The entries at these places are the files with these paths, in order, that
/// differ; there are no others before place `n`.
spec fn found_files(
    paths: Seq<Seq<u8>>,
    places: Seq<int>,
    entries: Seq<Entry>,
    n: int,
    list: Map<InputKey, Known>,
    other: Map<InputKey, Known>,
    difference: Difference,
) -> bool {
    &&& paths.len() == places.len()
    &&& forall|j: int|
        #![trigger places[j]]
        0 <= j < places.len() ==> {
            &&& 0 <= places[j] < n
            &&& entries[places[j]].first@.identifier() == InputIdentifierView::File(paths[j])
            &&& differs(list, other, difference, entries[places[j]].key())
        }
    &&& forall|j: int, k: int|
        0 <= j < k < places.len() ==> #[trigger] places[j] < #[trigger] places[k]
    &&& forall|a: int|
        #![trigger entries[a]]
        0 <= a < n && entries[a].key() is File && differs(
            list,
            other,
            difference,
            entries[a].key(),
        ) ==> places.contains(a)
}

spec fn found_envs(
    names: Seq<Seq<char>>,
    places: Seq<int>,
    entries: Seq<Entry>,
    n: int,
    list: Map<InputKey, Known>,
    other: Map<InputKey, Known>,
    difference: Difference,
) -> bool {
    &&& names.len() == places.len()
    &&& forall|j: int|
        #![trigger places[j]]
        0 <= j < places.len() ==> {
            &&& 0 <= places[j] < n
            &&& entries[places[j]].first@.identifier() == InputIdentifierView::Env(names[j])
            &&& differs(list, other, difference, entries[places[j]].key())
        }
    &&& forall|j: int, k: int|
        0 <= j < k < places.len() ==> #[trigger] places[j] < #[trigger] places[k]
    &&& forall|a: int|
        #![trigger entries[a]]
        0 <= a < n && entries[a].key() is Env && differs(
            list,
            other,
            difference,
            entries[a].key(),
        ) ==> places.contains(a)
}

proof fn found_files_are_listed(
    paths: Seq<Seq<u8>>,
    places: Seq<int>,
    table: InputTable,
    list: Map<InputKey, Known>,
    other: Map<InputKey, Known>,
    difference: Difference,
)
    requires
        table.holds(list),
        found_files(
            paths,
            places,
            table.entries@,
            table.entries@.len() as int,
            list,
            other,
            difference,
        ),
    ensures
        lists_files(paths, list, other, difference),
        paths.len() > 0 <==> some_file_differs(list, other, difference),
{
    let entries = table.entries@;
    assert forall|i: int| #![trigger paths[i]] 0 <= i < paths.len() implies differs(
        list,
        other,
        difference,
        file_key(paths[i]),
    ) && list[file_key(paths[i])].identifier == InputIdentifierView::File(paths[i]) by {
        let entry = entries[places[i]];
        assert(entry.key() == file_key(paths[i]));
        assert(list[entry.key()] == entry.known());
    }
    assert forall|key: InputKey|
        key is File && #[trigger] differs(list, other, difference, key) implies exists|i: int|
        0 <= i < paths.len() && #[trigger] file_key(paths[i]) == key by {
        let a = choose|a: int| 0 <= a < entries.len() && #[trigger] entries[a].key() == key;
        assert(places.contains(a));
        let j = choose|j: int| 0 <= j < places.len() && places[j] == a;
        assert(file_key(paths[j]) == key);
    }
    assert forall|i: int, j: int| 0 <= i < j < paths.len() implies #[trigger] path::path_order(
        paths[i],
        paths[j],
    ) == Comparison::Less by {
        let (a, b) = (places[i], places[j]);
        assert(input::key_order(entries[a].key(), entries[b].key()) == Comparison::Less);
    }
    if paths.len() > 0 {
        assert(paths[0] == paths[0]);
        assert(differs(list, other, difference, file_key(paths[0])));
    }
}

proof fn found_envs_are_listed(
    names: Seq<Seq<char>>,
    places: Seq<int>,
    table: InputTable,
    list: Map<InputKey, Known>,
    other: Map<InputKey, Known>,
    difference: Difference,
)
    requires
        table.holds(list),
        found_envs(
            names,
            places,
            table.entries@,
            table.entries@.len() as int,
            list,
            other,
            difference,
        ),
    ensures
        lists_envs(names, list, other, difference),
        names.len() > 0 <==> some_env_differs(list, other, difference),
{
    let entries = table.entries@;
    assert forall|i: int| #![trigger names[i]] 0 <= i < names.len() implies differs(
        list,
        other,
        difference,
        InputKey::Env(names[i]),
    ) by {
        let entry = entries[places[i]];
        assert(entry.key() == InputKey::Env(names[i]));
    }
    assert forall|key: InputKey|
        key is Env && #[trigger] differs(list, other, difference, key) implies exists|i: int|
        0 <= i < names.len() && InputKey::Env(#[trigger] names[i]) == key by {
        let a = choose|a: int| 0 <= a < entries.len() && #[trigger] entries[a].key() == key;
        assert(places.contains(a));
        let j = choose|j: int| 0 <= j < places.len() && places[j] == a;
        assert(InputKey::Env(names[j]) == key);
    }
    assert forall|i: int, j: int| 0 <= i < j < names.len() implies #[trigger] text::text_order(
        names[i],
        names[j],
    ) == Comparison::Less by {
        let (a, b) = (places[i], places[j]);
        assert(input::key_order(entries[a].key(), entries[b].key()) == Comparison::Less);
    }
    if names.len() > 0 {
        assert(differs(list, other, difference, InputKey::Env(names[0])));
    }
}

/// The files and the variables of one table that differ in this way in another.
fn differing(
    table: &InputTable,
    others: &InputTable,
    difference: Difference,
    Ghost(list): Ghost<Map<InputKey, Known>>,
    Ghost(other): Ghost<Map<InputKey, Known>>,
) -> (result: (Vec<FilePath>, Vec<String>))
    requires
        table.holds(list),
        others.holds(other),
    ensures
        lists_files(spellings(result.0@), list, other, difference),
        result.0@.len() > 0 <==> some_file_differs(list, other, difference),
        lists_envs(text::texts_of(result.1@), list, other, difference),
        result.1@.len() > 0 <==> some_env_differs(list, other, difference),
{
    let mut paths: Vec<FilePath> = Vec::new();
    let mut names: Vec<String> = Vec::new();
    let ghost mut file_places: Seq<int> = Seq::empty();
    let ghost mut env_places: Seq<int> = Seq::empty();
    let ghost entries = table.entries@;
    let mut i: usize = 0;
    while i < table.entries.len()
        invariant
            i <= table.entries@.len(),
            entries == table.entries@,
            table.holds(list),
            others.holds(other),
            found_files(spellings(paths@), file_places, entries, i as int, list, other, difference),
            found_envs(
                text::texts_of(names@),
                env_places,
                entries,
                i as int,
                list,
                other,
                difference,
            ),
        decreases table.entries@.len() - i,
    {
        let entry = &table.entries[i];
        let ghost key = entry.key();
        assert(list.contains_key(key) && list[key] == entries[i as int].known());
        let hit = match others.get(entry.first, Ghost(other)) {
            Some(at) => match difference {
                Difference::OtherContents => {
                    let is_file = match entry.first {
                        Input::File(_) => true,
                        Input::Env(_) => false,
                    };
                    !same_content_hash(entry.last, others.entries[at].last) || is_file
                        && !digests_within(&entry.all, &others.entries[at].all)
                },
                Difference::Absent => false,
            },
            None => match difference {
                Difference::OtherContents => false,
                Difference::Absent => true,
            },
        };
        assert(hit == differs(list, other, difference, key));
        let ghost (old_paths, old_names) = (spellings(paths@), text::texts_of(names@));
        let ghost (old_file_places, old_env_places) = (file_places, env_places);
        if hit {
            match entry.first {
                Input::File(desc) => {
                    paths.push(desc.path.clone());
                    proof {
                        file_places = file_places.push(i as int);
                        assert(spellings(paths@) =~= old_paths.push(desc.path@));
                        assert(file_places[file_places.len() - 1] == i);
                    }
                },
                Input::Env(desc) => {
                    names.push(desc.name.clone());
                    proof {
                        env_places = env_places.push(i as int);
                        assert(text::texts_of(names@) =~= old_names.push(desc.name@));
                        assert(env_places[env_places.len() - 1] == i);
                    }
                },
            }
        }
        proof {
            assert forall|a: int| old_file_places.contains(a) implies file_places.contains(a) by {
                let j = choose|j: int| 0 <= j < old_file_places.len() && old_file_places[j] == a;
                assert(file_places[j] == a);
            }
            assert forall|a: int| old_env_places.contains(a) implies env_places.contains(a) by {
                let j = choose|j: int| 0 <= j < old_env_places.len() && old_env_places[j] == a;
                assert(env_places[j] == a);
            }
        }
        i += 1;
    }
    proof {
        found_files_are_listed(spellings(paths@), file_places, *table, list, other, difference);
        found_envs_are_listed(
            text::texts_of(names@),
            env_places,
            *table,
            list,
            other,
            difference,
        );
    }
    (paths, names)
}

/// The most relevant reason why the digest of the inputs changed from that of the
/// recorded inputs `old` to that of the current inputs `new`.
pub fn explain_mismatch(old: &Vec<Input>, new: &Vec<Input>) -> (result: CacheMissReason)
    ensures
        explains(
            result@,
            table::by_identity(input::views(old@)),
            table::by_identity(input::views(new@)),
        ),
{
    let ghost old_known = table::by_identity(input::views(old@));
    let ghost new_known = table::by_identity(input::views(new@));
    let old_table = InputTable::of(old);
    let new_table = InputTable::of(new);
    let (modified_files, modified_envs) = differing(
        &new_table,
        &old_table,
        Difference::OtherContents,
        Ghost(new_known),
        Ghost(old_known),
    );
    let (added_files, added_envs) = differing(
        &new_table,
        &old_table,
        Difference::Absent,
        Ghost(new_known),
        Ghost(old_known),
    );
    let (removed_files, removed_envs) = differing(
        &old_table,
        &new_table,
        Difference::Absent,
        Ghost(old_known),
        Ghost(new_known),
    );
    // Return the most relevant reason
    if modified_files.len() > 0 {
        CacheMissReason::FilesModified { paths: modified_files }
    } else if added_files.len() > 0 {
        CacheMissReason::FilesModified { paths: added_files }
    } else if removed_files.len() > 0 {
        CacheMissReason::FilesRemoved { paths: removed_files }
    } else if modified_envs.len() > 0 {
        CacheMissReason::EnvModified { names: modified_envs }
    } else if added_envs.len() > 0 {
        CacheMissReason::EnvModified { names: added_envs }
    } else if removed_envs.len() > 0 {
        CacheMissReason::EnvRemoved { names: removed_envs }
    } else {
        // The digest changed, but no single input tells why
        CacheMissReason::InputsChanged
    }
}

} // verus!
