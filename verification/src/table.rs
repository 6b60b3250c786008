//! Inputs by identity: what is known of each, whatever the list says how often.
use crate::input::{self, Input, InputIdentifierView, InputKey, InputView};
use crate::normal;
use crate::order::{self, Comparison};
use crate::text::compare_text;
use vstd::prelude::*;

verus! {

/// What a list says of an input: how it is identified where it occurs first, the
/// digests with which it occurs, and what it held where it occurs last.
#[verifier::ext_equal]
pub struct Known {
    pub identifier: InputIdentifierView,
    pub digests: Set<Seq<char>>,
    pub last: Option<Seq<char>>,
}

/// Digests, with one more if there is one.
pub open spec fn with_digest(digests: Set<Seq<char>>, digest: Option<Seq<char>>) -> Set<Seq<char>> {
    match digest {
        Some(digest) => digests.insert(digest),
        None => digests,
    }
}

/// What is known of inputs, with what one more occurrence of an input says.
pub open spec fn noted(known: Map<InputKey, Known>, input: InputView) -> Map<InputKey, Known> {
    known.insert(
        input.key(),
        if known.contains_key(input.key()) {
            Known {
                identifier: known[input.key()].identifier,
                digests: with_digest(known[input.key()].digests, input.content_hash()),
                last: input.content_hash(),
            }
        } else {
            Known {
                identifier: input.identifier(),
                digests: with_digest(Set::empty(), input.content_hash()),
                last: input.content_hash(),
            }
        },
    )
}

/// What a list says of each input in it.
pub open spec fn by_identity(inputs: Seq<InputView>) -> Map<InputKey, Known>
    decreases inputs.len(),
{
    if inputs.len() == 0 {
        Map::empty()
    } else {
        noted(by_identity(inputs.drop_last()), inputs.last())
    }
}

/// Compares two inputs by what they are.
pub fn compare_keys(a: &Input, b: &Input) -> (result: Comparison)
    ensures
        result == input::key_order(a@.key(), b@.key()),
{
    match (a, b) {
        (Input::File(x), Input::File(y)) => x.path.compare(&y.path),
        (Input::File(_), Input::Env(_)) => Comparison::Less,
        (Input::Env(_), Input::File(_)) => Comparison::Greater,
        (Input::Env(x), Input::Env(y)) => compare_text(x.name.as_str(), y.name.as_str()),
    }
}

/// The occurrences of an input in a list.
#[derive(Debug)]
pub struct Entry<'a> {
    pub first: &'a Input,
    pub last: &'a Input,
    pub all: Vec<&'a Input>,
}

/// The digests of inputs.
pub open spec fn digests_of(inputs: Seq<&Input>) -> Set<Seq<char>>
    decreases inputs.len(),
{
    if inputs.len() == 0 {
        Set::empty()
    } else {
        with_digest(digests_of(inputs.drop_last()), inputs.last()@.content_hash())
    }
}

/// The digests of inputs are those of each of them that has one.
pub proof fn digests_of_each(inputs: Seq<&Input>, digest: Seq<char>)
    ensures
        digests_of(inputs).contains(digest) <==> exists|i: int|
            0 <= i < inputs.len() && (#[trigger] inputs[i])@.content_hash() == Some(digest),
    decreases inputs.len(),
{
    if inputs.len() > 0 {
        let front = inputs.drop_last();
        digests_of_each(front, digest);
        if digests_of(front).contains(digest) {
            let i = choose|i: int|
                0 <= i < front.len() && (#[trigger] front[i])@.content_hash() == Some(digest);
            assert(inputs[i]@.content_hash() == Some(digest));
        }
        if inputs.last()@.content_hash() == Some(digest) {
            assert(inputs[inputs.len() - 1]@.content_hash() == Some(digest));
        }
        if exists|i: int| 0 <= i < inputs.len() && (#[trigger] inputs[i])@.content_hash()
            == Some(digest) {
            let i = choose|i: int|
                0 <= i < inputs.len() && (#[trigger] inputs[i])@.content_hash() == Some(digest);
            if i < front.len() {
                assert(front[i]@.content_hash() == Some(digest));
            }
        }
    }
}

proof fn digests_of_one(input: &Input)
    ensures
        digests_of(seq![input]) == with_digest(Set::empty(), input@.content_hash()),
{
    assert(seq![input].drop_last() =~= Seq::empty());
    assert(digests_of(Seq::empty()) == Set::<Seq<char>>::empty());
}

impl<'a> Entry<'a> {
    /// The input that occurs.
    pub open spec fn key(self) -> InputKey {
        self.first@.key()
    }

    /// What the occurrences say of the input.
    pub open spec fn known(self) -> Known {
        Known {
            identifier: self.first@.identifier(),
            digests: digests_of(self.all@),
            last: self.last@.content_hash(),
        }
    }
}

/// The inputs of a list by identity, in the order of their keys.
#[derive(Debug)]
pub struct InputTable<'a> {
    pub entries: Vec<Entry<'a>>,
}

/// The keys come in order, each once.
pub open spec fn keys_increase(entries: Seq<Entry>) -> bool {
    forall|i: int, j: int|
        0 <= i < j < entries.len() ==> #[trigger] input::key_order(
            entries[i].key(),
            entries[j].key(),
        ) == Comparison::Less
}

/// The entries say what `known` says.
pub open spec fn entries_hold(entries: Seq<Entry>, known: Map<InputKey, Known>) -> bool {
    &&& forall|i: int|
        #![trigger entries[i]]
        0 <= i < entries.len() ==> known.contains_key(entries[i].key()) && known[entries[i].key()]
            == entries[i].known()
    &&& forall|key: InputKey| #[trigger]
        known.contains_key(key) ==> exists|i: int|
            0 <= i < entries.len() && #[trigger] entries[i].key() == key
}

impl<'a> InputTable<'a> {
    /// The table is in order and says what `known` says.
    pub open spec fn holds(self, known: Map<InputKey, Known>) -> bool {
        keys_increase(self.entries@) && entries_hold(self.entries@, known)
    }

    /// Where the input is in the table (`Ok`), or where it belongs (`Err`).
    pub fn find(&self, input: &Input) -> (result: Result<usize, usize>)
        requires
            keys_increase(self.entries@),
        ensures
            match result {
                Ok(i) => i < self.entries@.len() && self.entries@[i as int].key() == input@.key(),
                Err(i) => {
                    &&& i <= self.entries@.len()
                    &&& forall|j: int|
                        #![trigger self.entries@[j]]
                        0 <= j < i ==> input::key_order(self.entries@[j].key(), input@.key())
                            == Comparison::Less
                    &&& forall|j: int|
                        #![trigger self.entries@[j]]
                        i <= j < self.entries@.len() ==> input::key_order(
                            input@.key(),
                            self.entries@[j].key(),
                        ) == Comparison::Less
                },
            },
    {
        let ghost key = input@.key();
        let ghost keys = |a: InputKey, b: InputKey| input::key_order(a, b);
        proof {
            normal::key_order_is_total();
        }
        let mut low: usize = 0;
        let mut high: usize = self.entries.len();
        while low < high
            invariant
                keys_increase(self.entries@),
                keys == (|a: InputKey, b: InputKey| input::key_order(a, b)),
                order::total_preorder(keys),
                key == input@.key(),
                forall|a: InputKey, b: InputKey| #[trigger]
                    input::key_order(a, b) == Comparison::Equal <==> a == b,
                low <= high <= self.entries@.len(),
                forall|j: int|
                    #![trigger self.entries@[j]]
                    0 <= j < low ==> input::key_order(self.entries@[j].key(), key)
                        == Comparison::Less,
                forall|j: int|
                    #![trigger self.entries@[j]]
                    high <= j < self.entries@.len() ==> input::key_order(
                        key,
                        self.entries@[j].key(),
                    ) == Comparison::Less,
            decreases high - low,
        {
            let middle: usize = low + (high - low) / 2;
            let ghost there = self.entries@[middle as int].key();
            match compare_keys(self.entries[middle].first, input) {
                Comparison::Equal => {
                    return Ok(middle);
                },
                Comparison::Less => {
                    assert forall|j: int| #![trigger self.entries@[j]] 0 <= j < middle
                        + 1 implies input::key_order(self.entries@[j].key(), key)
                        == Comparison::Less by {
                        if j < middle {
                            assert(keys(self.entries@[j].key(), there) == Comparison::Less);
                            assert(keys(there, key) == Comparison::Less);
                            assert(keys(self.entries@[j].key(), key) == Comparison::Less);
                        }
                    }
                    low = middle + 1;
                },
                Comparison::Greater => {
                    assert(keys(key, there) == keys(there, key).flip());
                    assert forall|j: int|
                        #![trigger self.entries@[j]]
                        middle <= j < self.entries@.len() implies input::key_order(
                        key,
                        self.entries@[j].key(),
                    ) == Comparison::Less by {
                        if j > middle {
                            assert(keys(there, self.entries@[j].key()) == Comparison::Less);
                            assert(keys(key, self.entries@[j].key()) == Comparison::Less);
                        }
                    }
                    high = middle;
                },
            }
        }
        Err(low)
    }

    /// Where the input is in a table that says what `known` says, if it is.
    pub(crate) fn get(&self, input: &Input, Ghost(known): Ghost<Map<InputKey, Known>>) -> (result:
        Option<usize>)
        requires
            self.holds(known),
        ensures
            match result {
                Some(i) => {
                    &&& i < self.entries@.len()
                    &&& known.contains_key(input@.key())
                    &&& known[input@.key()] == self.entries@[i as int].known()
                },
                None => !known.contains_key(input@.key()),
            },
    {
        match self.find(input) {
            Ok(i) => Some(i),
            Err(_) => {
                proof {
                    normal::key_order_is_total();
                    if known.contains_key(input@.key()) {
                        let j = choose|j: int|
                            0 <= j < self.entries@.len() && #[trigger] self.entries@[j].key()
                                == input@.key();
                        assert(input::key_order(input@.key(), input@.key()) == Comparison::Equal);
                    }
                }
                None
            },
        }
    }

    /// Notes one more occurrence of the input that is at `i`.
    fn note_again(&mut self, i: usize, input: &'a Input, Ghost(known): Ghost<Map<InputKey, Known>>)
        requires
            old(self).holds(known),
            i < old(self).entries@.len(),
            old(self).entries@[i as int].key() == input@.key(),
        ensures
            final(self).holds(noted(known, input@)),
    {
        let ghost key = input@.key();
        let ghost before = self.entries@;
        let ghost after = noted(known, input@);
        self.entries[i].last = input;
        self.entries[i].all.push(input);
        let ghost entry = self.entries@[i as int];
        assert(self.entries@ =~= before.update(i as int, entry));
        assert(entry.all@.drop_last() =~= before[i as int].all@);
        assert forall|a: int, b: int| 0 <= a < b < self.entries@.len() implies #[trigger]
        input::key_order(self.entries@[a].key(), self.entries@[b].key())
            == Comparison::Less by {
            assert(input::key_order(before[a].key(), before[b].key()) == Comparison::Less);
        }
        assert forall|j: int| #![trigger self.entries@[j]] 0 <= j
            < self.entries@.len() implies after.contains_key(self.entries@[j].key())
            && after[self.entries@[j].key()] == self.entries@[j].known() by {
            assert(known.contains_key(before[j].key()));
            if j != i {
                normal::key_order_is_total();
                if j < i {
                    assert(input::key_order(before[j].key(), before[i as int].key())
                        == Comparison::Less);
                } else {
                    assert(input::key_order(before[i as int].key(), before[j].key())
                        == Comparison::Less);
                }
            }
        }
        assert forall|k: InputKey| #[trigger] after.contains_key(k) implies exists|j: int|
            0 <= j < self.entries@.len() && #[trigger] self.entries@[j].key() == k by {
            if k == key {
                assert(self.entries@[i as int].key() == k);
            } else {
                assert(known.contains_key(k));
                let j = choose|j: int|
                    0 <= j < before.len() && #[trigger] before[j].key() == k;
                assert(self.entries@[j].key() == k);
            }
        }
    }

    /// Notes the first occurrence of an input that belongs at `i`.
    fn note_new(&mut self, i: usize, input: &'a Input, Ghost(known): Ghost<Map<InputKey, Known>>)
        requires
            old(self).holds(known),
            i <= old(self).entries@.len(),
            forall|j: int|
                #![trigger old(self).entries@[j]]
                0 <= j < i ==> input::key_order(old(self).entries@[j].key(), input@.key())
                    == Comparison::Less,
            forall|j: int|
                #![trigger old(self).entries@[j]]
                i <= j < old(self).entries@.len() ==> input::key_order(
                    input@.key(),
                    old(self).entries@[j].key(),
                ) == Comparison::Less,
        ensures
            final(self).holds(noted(known, input@)),
    {
        let ghost key = input@.key();
        let ghost before = self.entries@;
        let ghost after = noted(known, input@);
        let mut all: Vec<&'a Input> = Vec::new();
        all.push(input);
        let entry = Entry { first: input, last: input, all };
        self.entries.insert(i, entry);
        proof {
            assert(entry.all@ =~= seq![input]);
            digests_of_one(input);
            normal::key_order_is_total();
            assert(!known.contains_key(key)) by {
                if known.contains_key(key) {
                    let j = choose|j: int|
                        0 <= j < before.len() && #[trigger] before[j].key() == key;
                    assert(input::key_order(key, key) == Comparison::Equal);
                }
            }
        }
        assert(self.entries@ =~= before.insert(i as int, entry));
        assert forall|a: int, b: int| 0 <= a < b < self.entries@.len() implies #[trigger]
        input::key_order(self.entries@[a].key(), self.entries@[b].key())
            == Comparison::Less by {
            let (x, y) = (if a < i {
                a
            } else {
                a - 1
            }, if b < i {
                b
            } else {
                b - 1
            });
            if a != i && b != i {
                assert(input::key_order(before[x].key(), before[y].key())
                    == Comparison::Less);
            } else if a == i {
                assert(self.entries@[b] == before[y]);
            } else {
                assert(self.entries@[a] == before[x]);
            }
        }
        assert forall|j: int| #![trigger self.entries@[j]] 0 <= j
            < self.entries@.len() implies after.contains_key(self.entries@[j].key())
            && after[self.entries@[j].key()] == self.entries@[j].known() by {
            if j != i {
                let x = if j < i {
                    j
                } else {
                    j - 1
                };
                assert(self.entries@[j] == before[x]);
                assert(known.contains_key(before[x].key()));
            }
        }
        assert forall|k: InputKey| #[trigger] after.contains_key(k) implies exists|j: int|
            0 <= j < self.entries@.len() && #[trigger] self.entries@[j].key() == k by {
            if k == key {
                assert(self.entries@[i as int].key() == k);
            } else {
                assert(known.contains_key(k));
                let j = choose|j: int|
                    0 <= j < before.len() && #[trigger] before[j].key() == k;
                if j < i {
                    assert(self.entries@[j].key() == k);
                } else {
                    assert(self.entries@[j + 1].key() == k);
                }
            }
        }
    }

    /// Notes one more occurrence of an input.
    fn note(&mut self, input: &'a Input, Ghost(known): Ghost<Map<InputKey, Known>>)
        requires
            old(self).holds(known),
        ensures
            final(self).holds(noted(known, input@)),
    {
        match self.find(input) {
            Ok(i) => self.note_again(i, input, Ghost(known)),
            Err(i) => self.note_new(i, input, Ghost(known)),
        }
    }

    /// The inputs of a list by identity.
    pub fn of(inputs: &'a Vec<Input>) -> (result: InputTable<'a>)
        ensures
            result.holds(by_identity(input::views(inputs@))),
    {
        let mut result = InputTable { entries: Vec::new() };
        let ghost models = input::views(inputs@);
        let mut i: usize = 0;
        while i < inputs.len()
            invariant
                i <= inputs@.len(),
                models == input::views(inputs@),
                result.holds(by_identity(models.take(i as int))),
            decreases inputs@.len() - i,
        {
            assert(models.take(i + 1).drop_last() =~= models.take(i as int));
            result.note(&inputs[i], Ghost(by_identity(models.take(i as int))));
            i += 1;
        }
        assert(models.take(i as int) =~= models);
        result
    }
}

} // verus!
