//! The normal form of a list of inputs: in order, without repetitions.
use crate::input::{self, Input, InputKey, InputView};
use crate::order::{self, Comparison};
use crate::path::{self, PathPart};
use crate::text;
use crate::time;
use vstd::prelude::*;

verus! {

/// The order of keys is total and transitive, and only a key itself is equal to it.
pub proof fn key_order_is_total()
    ensures
        order::total_preorder(|a: InputKey, b: InputKey| input::key_order(a, b)),
        forall|a: InputKey, b: InputKey| #[trigger]
            input::key_order(a, b) == Comparison::Equal <==> a == b,
{
    path::components_order_is_total();
    text::text_order_is_total();
    let paths = |a: Seq<PathPart>, b: Seq<PathPart>| path::components_order(a, b);
    let names = |a: Seq<char>, b: Seq<char>| text::text_order(a, b);
    let keys = |a: InputKey, b: InputKey| input::key_order(a, b);
    assert forall|a: InputKey, b: InputKey| #![trigger keys(a, b)] keys(b, a) == keys(
        a,
        b,
    ).flip() by {
        match (a, b) {
            (InputKey::File(x), InputKey::File(y)) => {
                assert(paths(y, x) == paths(x, y).flip());
            },
            (InputKey::Env(x), InputKey::Env(y)) => {
                assert(names(y, x) == names(x, y).flip());
            },
            _ => {},
        }
    }
    assert forall|a: InputKey, b: InputKey, c: InputKey|
        #![trigger keys(a, b), keys(b, c)]
        keys(a, b) != Comparison::Greater && keys(b, c) != Comparison::Greater implies {
        &&& keys(a, c) != Comparison::Greater
        &&& keys(a, c) == Comparison::Equal ==> keys(a, b) == Comparison::Equal && keys(b, c)
            == Comparison::Equal
    } by {
        match (a, b, c) {
            (InputKey::File(x), InputKey::File(y), InputKey::File(z)) => {
                assert(paths(x, y) != Comparison::Greater && paths(y, z) != Comparison::Greater);
            },
            (InputKey::Env(x), InputKey::Env(y), InputKey::Env(z)) => {
                assert(names(x, y) != Comparison::Greater && names(y, z) != Comparison::Greater);
            },
            _ => {},
        }
    }
    assert forall|a: InputKey, b: InputKey| #[trigger]
        input::key_order(a, b) == Comparison::Equal <==> a == b by {
        match (a, b) {
            (InputKey::File(x), InputKey::File(y)) => {
                assert(path::components_order(x, y) == Comparison::Equal <==> x == y);
            },
            (InputKey::Env(x), InputKey::Env(y)) => {
                assert(text::text_order(x, y) == Comparison::Equal <==> x == y);
            },
            _ => {},
        }
    }
}

/// The order of inputs is the order of their keys, refined for files by time.
pub proof fn input_order_refines_key_order(a: InputView, b: InputView)
    ensures
        input::input_order(a, b) == input::key_order(a.key(), b.key()).or_else(
            match (a, b) {
                (InputView::File(x), InputView::File(y)) => time::time_order(
                    y.modified_at,
                    x.modified_at,
                ),
                _ => Comparison::Equal,
            },
        ),
{
}

/// The order of inputs says of two inputs the opposite of what it says of them
/// when they change places.
pub proof fn input_order_flips(a: InputView, b: InputView)
    ensures
        input::input_order(b, a) == input::input_order(a, b).flip(),
{
    key_order_is_total();
    let keys = |a: InputKey, b: InputKey| input::key_order(a, b);
    assert(keys(b.key(), a.key()) == keys(a.key(), b.key()).flip());
    input_order_refines_key_order(a, b);
    input_order_refines_key_order(b, a);
}

/// The order of inputs is transitive.
pub proof fn input_order_chains(a: InputView, b: InputView, c: InputView)
    requires
        input::input_order(a, b) != Comparison::Greater,
        input::input_order(b, c) != Comparison::Greater,
    ensures
        input::input_order(a, c) != Comparison::Greater,
        input::input_order(a, c) == Comparison::Equal ==> input::input_order(a, b)
            == Comparison::Equal && input::input_order(b, c) == Comparison::Equal,
{
    key_order_is_total();
    let keys = |a: InputKey, b: InputKey| input::key_order(a, b);
    input_order_refines_key_order(a, b);
    input_order_refines_key_order(b, c);
    input_order_refines_key_order(a, c);
    assert(keys(a.key(), b.key()) != Comparison::Greater);
    assert(keys(b.key(), c.key()) != Comparison::Greater);
}

/// Every input of the list comes before, or is tied with, every later one.
pub open spec fn in_order(inputs: Seq<InputView>) -> bool {
    forall|i: int, j: int|
        0 <= i < j < inputs.len() ==> #[trigger] input::input_order(inputs[i], inputs[j])
            != Comparison::Greater
}

/// The inputs of the list that are tied with `x` in the order of inputs.
pub open spec fn tied(inputs: Seq<InputView>, x: InputView) -> Seq<InputView>
    decreases inputs.len(),
{
    if inputs.len() == 0 {
        Seq::empty()
    } else {
        let rest = tied(inputs.drop_last(), x);
        if input::input_order(x, inputs.last()) == Comparison::Equal {
            rest.push(inputs.last())
        } else {
            rest
        }
    }
}

/// The lists hold the same inputs, and inputs that are tied in the same order.
pub open spec fn same_up_to_order(a: Seq<InputView>, b: Seq<InputView>) -> bool {
    forall|x: InputView| #[trigger] tied(a, x) == tied(b, x)
}

/// The list with `x` put in behind all inputs that do not come after it.
pub open spec fn inserted(inputs: Seq<InputView>, x: InputView) -> Seq<InputView>
    decreases inputs.len(),
{
    if inputs.len() == 0 || input::input_order(inputs.last(), x) != Comparison::Greater {
        inputs.push(x)
    } else {
        inserted(inputs.drop_last(), x).push(inputs.last())
    }
}

/// The list in order, inputs that are tied as they stood.
pub open spec fn sorted(inputs: Seq<InputView>) -> Seq<InputView>
    decreases inputs.len(),
{
    if inputs.len() == 0 {
        Seq::empty()
    } else {
        inserted(sorted(inputs.drop_last()), inputs.last())
    }
}

/// The list without each input that has the contents of the one before it that
/// stays.
pub open spec fn deduped(inputs: Seq<InputView>) -> Seq<InputView>
    decreases inputs.len(),
{
    if inputs.len() == 0 {
        Seq::empty()
    } else {
        let rest = deduped(inputs.drop_last());
        if rest.len() > 0 && input::same_contents(inputs.last(), rest.last()) {
            rest
        } else {
            rest.push(inputs.last())
        }
    }
}

/// The list in order and without repetitions.
pub open spec fn normalised(inputs: Seq<InputView>) -> Seq<InputView> {
    deduped(sorted(inputs))
}

/// What is tied with an input in two lists is so in both in a row.
pub proof fn tied_concat(a: Seq<InputView>, b: Seq<InputView>, x: InputView)
    ensures
        tied(a + b, x) == tied(a, x) + tied(b, x),
    decreases b.len(),
{
    if b.len() == 0 {
        assert(a + b =~= a);
        assert(tied(a, x) + tied(b, x) =~= tied(a, x));
    } else {
        tied_concat(a, b.drop_last(), x);
        assert((a + b).drop_last() =~= a + b.drop_last());
        assert((a + b).last() == b.last());
        assert(tied(a + b, x) =~= tied(a, x) + tied(b, x));
    }
}

proof fn tied_one(a: InputView, x: InputView)
    ensures
        tied(seq![a], x) == (if input::input_order(x, a) == Comparison::Equal {
            seq![a]
        } else {
            Seq::empty()
        }),
{
    assert(seq![a].drop_last() =~= Seq::<InputView>::empty());
    reveal_with_fuel(tied, 2);
    assert(Seq::<InputView>::empty().push(a) =~= seq![a]);
}

proof fn tied_members(a: Seq<InputView>, x: InputView, i: int)
    requires
        0 <= i < tied(a, x).len(),
    ensures
        a.contains(tied(a, x)[i]),
        input::input_order(x, tied(a, x)[i]) == Comparison::Equal,
    decreases a.len(),
{
    if a.len() > 0 {
        let rest = tied(a.drop_last(), x);
        if i < rest.len() {
            tied_members(a.drop_last(), x, i);
            let k = choose|k: int| 0 <= k < a.drop_last().len() && a.drop_last()[k] == rest[i];
            assert(a[k] == rest[i]);
        } else {
            assert(a[a.len() - 1] == a.last());
        }
    }
}

/// Lists that are the same up to order have the same members.
pub proof fn same_up_to_order_contains(a: Seq<InputView>, b: Seq<InputView>, x: InputView)
    requires
        same_up_to_order(a, b),
        a.contains(x),
    ensures
        b.contains(x),
{
    let i = choose|i: int| 0 <= i < a.len() && a[i] == x;
    let (front, back) = (a.take(i), a.skip(i + 1));
    assert(a =~= front + seq![x] + back);
    tied_concat(front + seq![x], back, x);
    tied_concat(front, seq![x], x);
    tied_one(x, x);
    input_order_flips(x, x);
    assert(tied(a, x)[tied(front, x).len() as int] == x);
    assert(tied(a, x) == tied(b, x));
    tied_members(b, x, tied(front, x).len() as int);
}

proof fn inserted_contains(a: Seq<InputView>, x: InputView, y: InputView)
    requires
        inserted(a, x).contains(y),
    ensures
        y == x || a.contains(y),
    decreases a.len(),
{
    let i = choose|i: int| 0 <= i < inserted(a, x).len() && inserted(a, x)[i] == y;
    if a.len() == 0 || input::input_order(a.last(), x) != Comparison::Greater {
        if i < a.len() {
            assert(a[i] == y);
        }
    } else {
        let front = inserted(a.drop_last(), x);
        if i < front.len() {
            assert(front[i] == y);
            inserted_contains(a.drop_last(), x, y);
            if y != x {
                let k = choose|k: int| 0 <= k < a.drop_last().len() && a.drop_last()[k] == y;
                assert(a[k] == y);
            }
        } else {
            assert(a[a.len() - 1] == y);
        }
    }
}

pub proof fn front_in_order(a: Seq<InputView>)
    requires
        in_order(a),
        a.len() > 0,
    ensures
        in_order(a.drop_last()),
{
    let front = a.drop_last();
    assert forall|i: int, j: int| 0 <= i < j < front.len() implies #[trigger] input::input_order(
        front[i],
        front[j],
    ) != Comparison::Greater by {
        assert(input::input_order(a[i], a[j]) != Comparison::Greater);
    }
}

proof fn in_order_before_last(a: Seq<InputView>, y: InputView)
    requires
        in_order(a),
        a.contains(y),
    ensures
        input::input_order(y, a.last()) != Comparison::Greater,
{
    let k = choose|k: int| 0 <= k < a.len() && a[k] == y;
    if k < a.len() - 1 {
        assert(input::input_order(a[k], a[a.len() - 1]) != Comparison::Greater);
    } else {
        input_order_flips(y, y);
    }
}

/// A list in order stays in order with an input behind it that no member comes
/// after.
pub proof fn push_in_order(a: Seq<InputView>, x: InputView)
    requires
        in_order(a),
        forall|y: InputView| #[trigger]
            a.contains(y) ==> input::input_order(y, x) != Comparison::Greater,
    ensures
        in_order(a.push(x)),
{
    let result = a.push(x);
    assert forall|i: int, j: int| 0 <= i < j < result.len() implies #[trigger] input::input_order(
        result[i],
        result[j],
    ) != Comparison::Greater by {
        if j < a.len() {
            assert(input::input_order(a[i], a[j]) != Comparison::Greater);
        } else {
            assert(a.contains(a[i]));
        }
    }
}

proof fn inserted_in_order(a: Seq<InputView>, x: InputView)
    requires
        in_order(a),
    ensures
        in_order(inserted(a, x)),
    decreases a.len(),
{
    if a.len() == 0 {
        push_in_order(a, x);
    } else {
        let last = a.last();
        if input::input_order(last, x) != Comparison::Greater {
            assert forall|y: InputView| #[trigger] a.contains(y) implies input::input_order(y, x)
                != Comparison::Greater by {
                in_order_before_last(a, y);
                input_order_chains(y, last, x);
            }
            push_in_order(a, x);
        } else {
            let front = inserted(a.drop_last(), x);
            front_in_order(a);
            inserted_in_order(a.drop_last(), x);
            assert forall|y: InputView| #[trigger] front.contains(y) implies input::input_order(
                y,
                last,
            ) != Comparison::Greater by {
                inserted_contains(a.drop_last(), x, y);
                if y == x {
                    input_order_flips(last, x);
                } else {
                    let k = choose|k: int| 0 <= k < a.drop_last().len() && a.drop_last()[k] == y;
                    assert(a[k] == y);
                    in_order_before_last(a, y);
                }
            }
            push_in_order(front, last);
        }
    }
}

proof fn inserted_tied(a: Seq<InputView>, x: InputView, z: InputView)
    ensures
        tied(inserted(a, x), z) == tied(a.push(x), z),
    decreases a.len(),
{
    if a.len() > 0 && input::input_order(a.last(), x) == Comparison::Greater {
        let last = a.last();
        let front = inserted(a.drop_last(), x);
        inserted_tied(a.drop_last(), x, z);
        reveal_with_fuel(tied, 2);
        assert(inserted(a, x).drop_last() =~= front);
        assert(a.drop_last().push(x).drop_last() =~= a.drop_last());
        assert(a.push(x).drop_last() =~= a);
        if input::input_order(z, last) == Comparison::Equal && input::input_order(z, x)
            == Comparison::Equal {
            input_order_flips(z, last);
            input_order_chains(last, z, x);
        }
    }
}

/// What [`sorted`] gives is in order, and the same up to order as what it is
/// given.
pub proof fn sorted_is_in_order(inputs: Seq<InputView>)
    ensures
        in_order(sorted(inputs)),
        same_up_to_order(sorted(inputs), inputs),
    decreases inputs.len(),
{
    if inputs.len() > 0 {
        let (front, last) = (inputs.drop_last(), inputs.last());
        sorted_is_in_order(front);
        inserted_in_order(sorted(front), last);
        assert forall|x: InputView| #[trigger] tied(sorted(inputs), x) == tied(inputs, x) by {
            assert(tied(sorted(front), x) == tied(front, x));
            assert(sorted(front).push(last).drop_last() =~= sorted(front));
            inserted_tied(sorted(front), last, x);
        }
    }
}

proof fn tied_last(a: Seq<InputView>)
    requires
        a.len() > 0,
    ensures
        tied(a, a.last()).len() > 0,
        tied(a, a.last()).last() == a.last(),
{
    input_order_flips(a.last(), a.last());
}

/// There is only one way to bring a list in order that leaves inputs that are
/// tied as they stood.
pub proof fn in_order_is_unique(a: Seq<InputView>, b: Seq<InputView>)
    requires
        in_order(a),
        in_order(b),
        same_up_to_order(a, b),
    ensures
        a == b,
    decreases a.len(),
{
    if a.len() == 0 {
        if b.len() > 0 {
            tied_last(b);
            assert(tied(a, b.last()) == tied(b, b.last()));
        }
        assert(a =~= b);
    } else {
        let x = a.last();
        tied_last(a);
        assert(tied(a, x) == tied(b, x));
        tied_members(b, x, tied(b, x).len() - 1);
        let y = b.last();
        tied_last(b);
        assert(a[a.len() - 1] == x && b[b.len() - 1] == y);
        in_order_before_last(b, x);
        assert(tied(a, y) == tied(b, y));
        tied_members(a, y, tied(a, y).len() - 1);
        in_order_before_last(a, y);
        input_order_flips(x, y);
        assert(input::input_order(x, y) == Comparison::Equal);
        assert(tied(b, x).last() == y);
        let (front, other) = (a.drop_last(), b.drop_last());
        assert forall|z: InputView| #[trigger] tied(front, z) == tied(other, z) by {
            assert(tied(a, z) == tied(b, z));
            if input::input_order(z, x) == Comparison::Equal {
                assert(tied(front, z) =~= tied(a, z).drop_last());
                assert(tied(other, z) =~= tied(b, z).drop_last());
            }
        }
        front_in_order(a);
        front_in_order(b);
        in_order_is_unique(front, other);
        assert(a =~= front.push(x));
        assert(b =~= other.push(y));
    }
}

/// The list back to front.
fn reversed(mut inputs: Vec<Input>) -> (result: Vec<Input>)
    ensures
        result@ == inputs@.reverse(),
{
    let ghost all = inputs@;
    let mut result: Vec<Input> = Vec::new();
    while inputs.len() > 0
        invariant
            inputs@.len() <= all.len(),
            inputs@ == all.take(inputs@.len() as int),
            result@ == all.skip(inputs@.len() as int).reverse(),
        decreases inputs@.len(),
    {
        let ghost n = inputs@.len() as int;
        if let Some(last) = inputs.pop() {
            result.push(last);
            assert(all.skip(n - 1) =~= seq![all[n - 1]] + all.skip(n));
            assert(result@ =~= all.skip(n - 1).reverse());
            assert(inputs@ =~= all.take(n - 1));
        }
    }
    assert(all.skip(0) =~= all);
    result
}

/// What is left of two lists and the end of the merged list that was taken off
/// them.
#[verifier::opaque]
spec fn merging(
    a: Seq<InputView>,
    b: Seq<InputView>,
    front: Seq<InputView>,
    other: Seq<InputView>,
    tail: Seq<InputView>,
) -> bool {
    &&& in_order(front)
    &&& in_order(other)
    &&& in_order(tail)
    &&& forall|x: InputView, y: InputView|
        #![trigger front.contains(x), tail.contains(y)]
        front.contains(x) && tail.contains(y) ==> input::input_order(x, y) != Comparison::Greater
    &&& forall|x: InputView, y: InputView|
        #![trigger other.contains(x), tail.contains(y)]
        other.contains(x) && tail.contains(y) ==> input::input_order(x, y) != Comparison::Greater
    &&& forall|x: InputView|
        #![trigger tied(tail, x)]
        tied(a, x) + tied(b, x) == tied(front, x) + tied(other, x) + tied(tail, x)
}

proof fn prepend_in_order(x: InputView, tail: Seq<InputView>)
    requires
        in_order(tail),
        forall|y: InputView| #[trigger]
            tail.contains(y) ==> input::input_order(x, y) != Comparison::Greater,
    ensures
        in_order(seq![x] + tail),
{
    let result = seq![x] + tail;
    assert forall|i: int, j: int| 0 <= i < j < result.len() implies #[trigger] input::input_order(
        result[i],
        result[j],
    ) != Comparison::Greater by {
        assert(tail.contains(tail[j - 1]));
        if i > 0 {
            assert(input::input_order(tail[i - 1], tail[j - 1]) != Comparison::Greater);
        }
    }
}

proof fn prepend_contains(x: InputView, tail: Seq<InputView>, y: InputView)
    requires
        (seq![x] + tail).contains(y),
    ensures
        y == x || tail.contains(y),
{
    let k = choose|k: int| 0 <= k < (seq![x] + tail).len() && (seq![x] + tail)[k] == y;
    if k > 0 {
        assert(tail[k - 1] == y);
    }
}

proof fn front_contains(a: Seq<InputView>, x: InputView)
    requires
        a.len() > 0,
        a.drop_last().contains(x),
    ensures
        a.contains(x),
{
    let k = choose|k: int| 0 <= k < a.drop_last().len() && a.drop_last()[k] == x;
    assert(a[k] == x);
}

/// The last input of the second list may go in front of the tail.
proof fn merge_takes_other(
    a: Seq<InputView>,
    b: Seq<InputView>,
    front: Seq<InputView>,
    other: Seq<InputView>,
    tail: Seq<InputView>,
)
    requires
        merging(a, b, front, other, tail),
        other.len() > 0,
        front.len() > 0 ==> input::input_order(front.last(), other.last()) != Comparison::Greater,
    ensures
        merging(a, b, front, other.drop_last(), seq![other.last()] + tail),
{
    reveal(merging);
    let x = other.last();
    let rest = other.drop_last();
    let grown = seq![x] + tail;
    assert(other[other.len() - 1] == x);
    assert(other.contains(x));
    front_in_order(other);
    prepend_in_order(x, tail);
    assert forall|u: InputView, v: InputView|
        #![trigger front.contains(u), grown.contains(v)]
        front.contains(u) && grown.contains(v) implies input::input_order(u, v)
        != Comparison::Greater by {
        prepend_contains(x, tail, v);
        if !tail.contains(v) {
            in_order_before_last(front, u);
            input_order_chains(u, front.last(), x);
        }
    }
    assert forall|u: InputView, v: InputView|
        #![trigger rest.contains(u), grown.contains(v)]
        rest.contains(u) && grown.contains(v) implies input::input_order(u, v)
        != Comparison::Greater by {
        front_contains(other, u);
        prepend_contains(x, tail, v);
        if !tail.contains(v) {
            in_order_before_last(other, u);
        }
    }
    assert forall|z: InputView| #![trigger tied(grown, z)] tied(a, z) + tied(b, z) == tied(front, z)
        + tied(rest, z) + tied(grown, z) by {
        assert(tied(a, z) + tied(b, z) == tied(front, z) + tied(other, z) + tied(tail, z));
        tied_concat(seq![x], tail, z);
        tied_one(x, z);
        assert(tied(front, z) + tied(rest, z) + tied(grown, z) =~= tied(front, z) + tied(other, z)
            + tied(tail, z));
    }
}

proof fn none_tied_below(a: Seq<InputView>, x: InputView, z: InputView)
    requires
        in_order(a),
        a.len() > 0 ==> input::input_order(x, a.last()) == Comparison::Greater,
        input::input_order(z, x) == Comparison::Equal,
    ensures
        tied(a, z) == Seq::<InputView>::empty(),
{
    if tied(a, z).len() > 0 {
        let y = tied(a, z)[0];
        tied_members(a, z, 0);
        in_order_before_last(a, y);
        input_order_flips(z, x);
        input_order_chains(x, z, y);
        input_order_chains(x, y, a.last());
    }
    assert(tied(a, z) =~= Seq::<InputView>::empty());
}

/// The last input of the first list may go in front of the tail, where it comes
/// after all that is left of the second.
proof fn merge_takes_front(
    a: Seq<InputView>,
    b: Seq<InputView>,
    front: Seq<InputView>,
    other: Seq<InputView>,
    tail: Seq<InputView>,
)
    requires
        merging(a, b, front, other, tail),
        front.len() > 0,
        other.len() > 0 ==> input::input_order(front.last(), other.last()) == Comparison::Greater,
    ensures
        merging(a, b, front.drop_last(), other, seq![front.last()] + tail),
{
    reveal(merging);
    let x = front.last();
    let rest = front.drop_last();
    let grown = seq![x] + tail;
    assert(front[front.len() - 1] == x);
    assert(front.contains(x));
    front_in_order(front);
    prepend_in_order(x, tail);
    assert forall|u: InputView, v: InputView|
        #![trigger rest.contains(u), grown.contains(v)]
        rest.contains(u) && grown.contains(v) implies input::input_order(u, v)
        != Comparison::Greater by {
        front_contains(front, u);
        prepend_contains(x, tail, v);
        if !tail.contains(v) {
            in_order_before_last(front, u);
        }
    }
    assert forall|u: InputView, v: InputView|
        #![trigger other.contains(u), grown.contains(v)]
        other.contains(u) && grown.contains(v) implies input::input_order(u, v)
        != Comparison::Greater by {
        prepend_contains(x, tail, v);
        if !tail.contains(v) {
            in_order_before_last(other, u);
            input_order_flips(x, other.last());
            input_order_chains(u, other.last(), x);
        }
    }
    assert forall|z: InputView| #![trigger tied(grown, z)] tied(a, z) + tied(b, z) == tied(rest, z)
        + tied(other, z) + tied(grown, z) by {
        assert(tied(a, z) + tied(b, z) == tied(front, z) + tied(other, z) + tied(tail, z));
        tied_concat(seq![x], tail, z);
        tied_one(x, z);
        if input::input_order(z, x) == Comparison::Equal {
            none_tied_below(other, x, z);
        }
        assert(tied(rest, z) + tied(other, z) + tied(grown, z) =~= tied(front, z) + tied(other, z)
            + tied(tail, z));
    }
}

/// Merges two lists that are in order. Of inputs that are tied, those of the first
/// list come first.
fn merged(mut a: Vec<Input>, mut b: Vec<Input>) -> (result: Vec<Input>)
    requires
        in_order(input::views(a@)),
        in_order(input::views(b@)),
    ensures
        in_order(input::views(result@)),
        same_up_to_order(input::views(result@), input::views(a@) + input::views(b@)),
{
    let ghost (first, second) = (input::views(a@), input::views(b@));
    let mut backwards: Vec<Input> = Vec::new();
    let ghost mut tail: Seq<InputView> = Seq::empty();
    assert(merging(first, second, first, second, tail)) by {
        reveal(merging);
        assert forall|x: InputView| #![trigger tied(tail, x)] tied(first, x) + tied(second, x)
            == tied(first, x) + tied(second, x) + tied(tail, x) by {
            assert(tied(tail, x) =~= Seq::<InputView>::empty());
            assert(tied(first, x) + tied(second, x) =~= tied(first, x) + tied(second, x) + tied(
                tail,
                x,
            ));
        }
    }
    assert(input::views(backwards@.reverse()) =~= tail);
    while a.len() > 0 || b.len() > 0
        invariant
            merging(first, second, input::views(a@), input::views(b@), tail),
            input::views(backwards@.reverse()) == tail,
        decreases a@.len() + b@.len(),
    {
        let take_b = if a.len() == 0 {
            true
        } else if b.len() == 0 {
            false
        } else {
            match a[a.len() - 1].compare(&b[b.len() - 1]) {
                Comparison::Greater => false,
                _ => true,
            }
        };
        let ghost (rest_a, rest_b, done) = (a@, b@, backwards@);
        let next = if take_b {
            proof {
                merge_takes_other(first, second, input::views(a@), input::views(b@), tail);
            }
            b.pop()
        } else {
            proof {
                merge_takes_front(first, second, input::views(a@), input::views(b@), tail);
            }
            a.pop()
        };
        if let Some(input) = next {
            proof {
                tail = seq![input@] + tail;
            }
            backwards.push(input);
            assert(input::views(backwards@.reverse()) =~= seq![input@] + input::views(
                done.reverse(),
            ));
            assert(take_b ==> input::views(b@) =~= input::views(rest_b).drop_last());
            assert(!take_b ==> input::views(a@) =~= input::views(rest_a).drop_last());
        }
    }
    let result = reversed(backwards);
    reveal(merging);
    assert(input::views(a@) =~= Seq::<InputView>::empty());
    assert(input::views(b@) =~= Seq::<InputView>::empty());
    assert forall|x: InputView| #[trigger] tied(input::views(result@), x) == tied(first + second, x) by {
        tied_concat(first, second, x);
        assert(tied(first, x) + tied(second, x) == tied(Seq::<InputView>::empty(), x) + tied(
            Seq::<InputView>::empty(),
            x,
        ) + tied(tail, x));
        assert(tied(tail, x) =~= tied(first, x) + tied(second, x));
    }
    result
}

fn merge_sorted(mut inputs: Vec<Input>) -> (result: Vec<Input>)
    ensures
        input::views(result@) == sorted(input::views(inputs@)),
    decreases inputs@.len(),
{
    let ghost all = input::views(inputs@);
    if inputs.len() <= 1 {
        proof {
            if all.len() == 1 {
                reveal_with_fuel(sorted, 2);
                assert(all.drop_last() =~= Seq::<InputView>::empty());
                assert(sorted(all) =~= all);
            } else {
                assert(sorted(all) =~= all);
            }
        }
        return inputs;
    }
    let middle: usize = inputs.len() / 2;
    let second = inputs.split_off(middle);
    let ghost (front, back) = (input::views(inputs@), input::views(second@));
    assert(front + back =~= all);
    let first = merge_sorted(inputs);
    let second = merge_sorted(second);
    proof {
        sorted_is_in_order(front);
        sorted_is_in_order(back);
        sorted_is_in_order(all);
    }
    let result = merged(first, second);
    proof {
        assert forall|x: InputView| #[trigger] tied(input::views(result@), x) == tied(
            sorted(all),
            x,
        ) by {
            assert(tied(input::views(result@), x) == tied(sorted(front) + sorted(back), x));
            tied_concat(sorted(front), sorted(back), x);
            tied_concat(front, back, x);
            assert(tied(sorted(front), x) == tied(front, x));
            assert(tied(sorted(back), x) == tied(back, x));
            assert(tied(sorted(all), x) == tied(all, x));
        }
        in_order_is_unique(input::views(result@), sorted(all));
    }
    result
}

/// Brings the inputs in order. Inputs that are tied stay as they stood.
pub fn sort_inputs(inputs: &mut Vec<Input>)
    ensures
        input::views(final(inputs)@) == sorted(input::views(old(inputs)@)),
{
    let all = inputs.split_off(0);
    assert(all@ =~= old(inputs)@);
    let mut result = merge_sorted(all);
    let ghost sorted_inputs = result@;
    inputs.append(&mut result);
    assert(inputs@ =~= sorted_inputs);
}

/// Drops each input that has the contents of the one before it that stays.
pub fn dedup_inputs(inputs: &mut Vec<Input>)
    ensures
        input::views(final(inputs)@) == deduped(input::views(old(inputs)@)),
{
    let all = inputs.split_off(0);
    let ghost original = all@;
    assert(original =~= old(inputs)@);
    let ghost models = input::views(original);
    let mut backwards = reversed(all);
    let ghost mut n: int = 0;
    assert(input::views(inputs@) =~= deduped(models.take(0)));
    while backwards.len() > 0
        invariant
            0 <= n,
            n + backwards@.len() == original.len(),
            backwards@ == original.skip(n).reverse(),
            models == input::views(original),
            input::views(inputs@) == deduped(models.take(n)),
        decreases backwards@.len(),
    {
        let ghost before = inputs@;
        if let Some(next) = backwards.pop() {
            assert(next == original[n]);
            let repeated = if inputs.len() > 0 {
                next.has_contents_of(&inputs[inputs.len() - 1])
            } else {
                false
            };
            assert(models.take(n + 1).drop_last() =~= models.take(n));
            assert(models.take(n + 1).last() == next@);
            if !repeated {
                inputs.push(next);
                assert(input::views(inputs@) =~= input::views(before).push(next@));
            }
            assert(backwards@ =~= original.skip(n + 1).reverse());
            proof {
                n = n + 1;
            }
        }
    }
    assert(models.take(n) =~= models);
}

/// Brings the inputs in order and drops repetitions.
pub fn normalise(inputs: &mut Vec<Input>)
    ensures
        input::views(final(inputs)@) == normalised(input::views(old(inputs)@)),
{
    sort_inputs(inputs);
    dedup_inputs(inputs);
}

} // verus!
