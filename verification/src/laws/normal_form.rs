//! What holds of lists of inputs in normal form.
use crate::input::{self, InputKey, InputView};
use crate::normal;
use crate::order::Comparison;
use crate::path;
use crate::time;
use vstd::prelude::*;

verus! {

/// Being the same input with the same contents is reflexive, symmetric and
/// transitive, and implies being the same input with the same digest.
pub proof fn same_contents_is_an_equivalence(a: InputView, b: InputView, c: InputView)
    ensures
        input::same_contents(a, a),
        input::same_contents(a, b) == input::same_contents(b, a),
        input::same_contents(a, b) && input::same_contents(b, c) ==> input::same_contents(a, c),
        input::same_contents(a, b) ==> a.key() == b.key() && a.content_hash() == b.content_hash(),
{
}

/// The list does not describe one input with different contents.
pub open spec fn consistent(inputs: Seq<InputView>) -> bool {
    forall|i: int, j: int|
        0 <= i < inputs.len() && 0 <= j < inputs.len() && #[trigger] inputs[i].key()
            == #[trigger] inputs[j].key() ==> input::same_contents(inputs[i], inputs[j])
}

/// The last input stays, perhaps as an earlier description with the same contents.
pub proof fn deduped_last(inputs: Seq<InputView>)
    requires
        inputs.len() > 0,
    ensures
        normal::deduped(inputs).len() > 0,
        input::same_contents(normal::deduped(inputs).last(), inputs.last()),
{
    let rest = normal::deduped(inputs.drop_last());
    if rest.len() > 0 {
        same_contents_is_an_equivalence(inputs.last(), rest.last(), inputs.last());
    }
}

proof fn deduped_members(inputs: Seq<InputView>, x: InputView)
    requires
        normal::deduped(inputs).contains(x),
    ensures
        inputs.contains(x),
    decreases inputs.len(),
{
    if inputs.len() > 0 {
        let rest = normal::deduped(inputs.drop_last());
        let i = choose|i: int|
            0 <= i < normal::deduped(inputs).len() && normal::deduped(inputs)[i] == x;
        if i < rest.len() {
            assert(rest[i] == x);
            deduped_members(inputs.drop_last(), x);
            let k = choose|k: int| 0 <= k < inputs.drop_last().len() && inputs.drop_last()[k] == x;
            assert(inputs[k] == x);
        } else {
            assert(inputs[inputs.len() - 1] == x);
        }
    }
}

proof fn deduped_in_order(inputs: Seq<InputView>)
    requires
        normal::in_order(inputs),
    ensures
        normal::in_order(normal::deduped(inputs)),
    decreases inputs.len(),
{
    if inputs.len() > 0 {
        let (front, last) = (inputs.drop_last(), inputs.last());
        normal::front_in_order(inputs);
        deduped_in_order(front);
        let rest = normal::deduped(front);
        assert forall|y: InputView| #[trigger] rest.contains(y) implies input::input_order(y, last)
            != Comparison::Greater by {
            deduped_members(front, y);
            let k = choose|k: int| 0 <= k < front.len() && front[k] == y;
            assert(input::input_order(inputs[k], inputs[inputs.len() - 1]) != Comparison::Greater);
        }
        normal::push_in_order(rest, last);
    }
}

proof fn deduped_twice(inputs: Seq<InputView>)
    ensures
        normal::deduped(normal::deduped(inputs)) == normal::deduped(inputs),
    decreases inputs.len(),
{
    if inputs.len() > 0 {
        let rest = normal::deduped(inputs.drop_last());
        deduped_twice(inputs.drop_last());
        assert(rest.push(inputs.last()).drop_last() =~= rest);
    }
}

/// A list in normal form is in order, and bringing it into normal form again
/// changes nothing.
pub proof fn normal_form_is_stable(inputs: Seq<InputView>)
    ensures
        normal::in_order(normal::normalised(inputs)),
        normal::normalised(normal::normalised(inputs)) == normal::normalised(inputs),
{
    let form = normal::normalised(inputs);
    normal::sorted_is_in_order(inputs);
    deduped_in_order(normal::sorted(inputs));
    normal::sorted_is_in_order(form);
    normal::in_order_is_unique(normal::sorted(form), form);
    deduped_twice(normal::sorted(inputs));
}

/// An input that stands between two descriptions of one input is that input too.
pub proof fn squeezed(a: InputView, b: InputView, c: InputView)
    requires
        input::input_order(a, b) != Comparison::Greater,
        input::input_order(b, c) != Comparison::Greater,
        a.key() == c.key(),
    ensures
        b.key() == a.key(),
{
    normal::key_order_is_total();
    let keys = |a: InputKey, b: InputKey| input::key_order(a, b);
    normal::input_order_refines_key_order(a, b);
    normal::input_order_refines_key_order(b, c);
    assert(keys(a.key(), b.key()) != Comparison::Greater);
    assert(keys(b.key(), c.key()) != Comparison::Greater);
    assert(keys(a.key(), c.key()) == Comparison::Equal);
}

/// Some input of the list is this input with these contents.
pub open spec fn knows(inputs: Seq<InputView>, x: InputView) -> bool {
    exists|i: int| 0 <= i < inputs.len() && input::same_contents(#[trigger] inputs[i], x)
}

/// Bringing a list into normal form loses no input and no contents and adds none,
/// and leaves no two neighbours that are the same input with the same contents.
pub proof fn normal_form_keeps_contents(inputs: Seq<InputView>, x: InputView)
    ensures
        inputs.contains(x) ==> knows(normal::normalised(inputs), x),
        normal::normalised(inputs).contains(x) ==> inputs.contains(x),
        forall|i: int, j: int|
            0 <= i && j == i + 1 && j < normal::normalised(inputs).len() ==> !input::same_contents(
                #[trigger] normal::normalised(inputs)[i],
                #[trigger] normal::normalised(inputs)[j],
            ),
{
    let list = normal::sorted(inputs);
    normal::sorted_is_in_order(inputs);
    if normal::deduped(list).contains(x) {
        deduped_members(list, x);
        normal::same_up_to_order_contains(list, inputs, x);
    }
    if inputs.contains(x) {
        normal::same_up_to_order_contains(inputs, list, x);
        deduped_knows(list, x);
    }
    deduped_neighbours(list);
}

proof fn deduped_knows(inputs: Seq<InputView>, x: InputView)
    requires
        inputs.contains(x),
    ensures
        knows(normal::deduped(inputs), x),
    decreases inputs.len(),
{
    let rest = normal::deduped(inputs.drop_last());
    let all = normal::deduped(inputs);
    if inputs.last() == x {
        deduped_last(inputs);
        assert(input::same_contents(all[all.len() - 1], x));
    } else {
        let i = choose|i: int| 0 <= i < inputs.len() && inputs[i] == x;
        assert(inputs.drop_last()[i] == x);
        deduped_knows(inputs.drop_last(), x);
        let k = choose|k: int| 0 <= k < rest.len() && input::same_contents(#[trigger] rest[k], x);
        assert(all[k] == rest[k]);
    }
}

proof fn deduped_neighbours(inputs: Seq<InputView>)
    ensures
        forall|i: int, j: int|
            0 <= i && j == i + 1 && j < normal::deduped(inputs).len() ==> !input::same_contents(
                #[trigger] normal::deduped(inputs)[i],
                #[trigger] normal::deduped(inputs)[j],
            ),
    decreases inputs.len(),
{
    if inputs.len() > 0 {
        deduped_neighbours(inputs.drop_last());
        let rest = normal::deduped(inputs.drop_last());
        if rest.len() > 0 {
            same_contents_is_an_equivalence(inputs.last(), rest.last(), rest.last());
        }
    }
}

proof fn deduped_once(inputs: Seq<InputView>)
    requires
        normal::in_order(inputs),
        consistent(inputs),
    ensures
        forall|i: int, j: int|
            0 <= i < j < normal::deduped(inputs).len() ==> (#[trigger] normal::deduped(
                inputs,
            )[i]).key() != (#[trigger] normal::deduped(inputs)[j]).key(),
    decreases inputs.len(),
{
    if inputs.len() > 0 {
        let (front, last) = (inputs.drop_last(), inputs.last());
        let (rest, all) = (normal::deduped(front), normal::deduped(inputs));
        let n = inputs.len() - 1;
        normal::front_in_order(inputs);
        assert(consistent(front)) by {
            assert forall|i: int, j: int|
                0 <= i < front.len() && 0 <= j < front.len() && #[trigger] front[i].key()
                    == #[trigger] front[j].key() implies input::same_contents(
                front[i],
                front[j],
            ) by {
                assert(inputs[i].key() == inputs[j].key());
            }
        }
        deduped_once(front);
        deduped_in_order(inputs);
        if all.len() > rest.len() {
            assert forall|i: int| 0 <= i < rest.len() implies (#[trigger] rest[i]).key()
                != last.key() by {
                if rest[i].key() == last.key() {
                    let m = rest.len() - 1;
                    assert(all[i] == rest[i] && all[m] == rest[m] && all[m + 1] == last);
                    assert(input::input_order(all[m], all[m + 1]) != Comparison::Greater);
                    if i < m {
                        assert(input::input_order(all[i], all[m]) != Comparison::Greater);
                        squeezed(all[i], all[m], last);
                    }
                    assert(rest.contains(rest[m]));
                    deduped_members(front, rest[m]);
                    let k = choose|k: int| 0 <= k < front.len() && front[k] == rest[m];
                    assert(inputs[n].key() == inputs[k].key());
                    assert(input::same_contents(last, rest.last()));
                }
            }
        }
    }
}

proof fn deduped_most_recent(inputs: Seq<InputView>, x: InputView)
    requires
        normal::in_order(inputs),
        inputs.contains(x),
    ensures
        exists|i: int|
            0 <= i < normal::deduped(inputs).len() && input::same_contents(
                #[trigger] normal::deduped(inputs)[i],
                x,
            ) && input::input_order(normal::deduped(inputs)[i], x) != Comparison::Greater,
    decreases inputs.len(),
{
    let (front, last) = (inputs.drop_last(), inputs.last());
    let (rest, all) = (normal::deduped(front), normal::deduped(inputs));
    let n = inputs.len() - 1;
    normal::front_in_order(inputs);
    let at = choose|i: int| 0 <= i < inputs.len() && inputs[i] == x;
    if at < n {
        assert(front[at] == x);
        deduped_most_recent(front, x);
        let k = choose|k: int|
            0 <= k < rest.len() && input::same_contents(#[trigger] rest[k], x)
                && input::input_order(rest[k], x) != Comparison::Greater;
        assert(all[k] == rest[k]);
    } else if all.len() > rest.len() {
        assert(all[all.len() - 1] == x);
        normal::input_order_flips(x, x);
    } else {
        let m = rest.len() - 1;
        assert(all[m] == rest.last());
        same_contents_is_an_equivalence(last, rest.last(), last);
        assert(rest.contains(rest[m]));
        deduped_members(front, rest[m]);
        let k = choose|k: int| 0 <= k < front.len() && front[k] == rest[m];
        assert(input::input_order(inputs[k], inputs[n]) != Comparison::Greater);
    }
}

/// Of a list that does not describe one input with different contents, the normal
/// form has every input once.
pub proof fn normal_form_has_inputs_once(inputs: Seq<InputView>)
    requires
        consistent(inputs),
    ensures
        forall|i: int, j: int|
            0 <= i < j < normal::normalised(inputs).len() ==> (#[trigger] normal::normalised(
                inputs,
            )[i]).key() != (#[trigger] normal::normalised(inputs)[j]).key(),
{
    let list = normal::sorted(inputs);
    normal::sorted_is_in_order(inputs);
    assert(consistent(list)) by {
        assert forall|i: int, j: int|
            0 <= i < list.len() && 0 <= j < list.len() && #[trigger] list[i].key()
                == #[trigger] list[j].key() implies input::same_contents(list[i], list[j]) by {
            assert(list.contains(list[i]) && list.contains(list[j]));
            normal::same_up_to_order_contains(list, inputs, list[i]);
            normal::same_up_to_order_contains(list, inputs, list[j]);
            let k = choose|k: int| 0 <= k < inputs.len() && inputs[k] == list[i];
            let m = choose|m: int| 0 <= m < inputs.len() && inputs[m] == list[j];
            assert(inputs[k].key() == inputs[m].key());
        }
    }
    deduped_once(list);
}

/// The normal form has every input of a list with the contents that it has there, a
/// file as it was modified no earlier.
pub proof fn normal_form_keeps_the_most_recent(inputs: Seq<InputView>, x: InputView)
    requires
        inputs.contains(x),
    ensures
        exists|i: int|
            {
                &&& 0 <= i < normal::normalised(inputs).len()
                &&& input::same_contents(#[trigger] normal::normalised(inputs)[i], x)
                &&& x matches InputView::File(file) ==> normal::normalised(
                    inputs,
                )[i] matches InputView::File(kept) && time::time_order(
                    kept.modified_at,
                    file.modified_at,
                ) != Comparison::Less
            },
{
    let list = normal::sorted(inputs);
    normal::sorted_is_in_order(inputs);
    normal::same_up_to_order_contains(inputs, list, x);
    deduped_most_recent(list, x);
    let i = choose|i: int|
        0 <= i < normal::deduped(list).len() && input::same_contents(
            #[trigger] normal::deduped(list)[i],
            x,
        ) && input::input_order(normal::deduped(list)[i], x) != Comparison::Greater;
    let kept = normal::normalised(inputs)[i];
    assert(input::same_contents(kept, x));
    if x is File {
        path::components_order_is_total();
        assert(path::path_order(kept->File_0.path, x->File_0.path) == Comparison::Equal);
    }
}

} // verus!
