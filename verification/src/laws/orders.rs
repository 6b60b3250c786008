//! What decides which of two values comes first.
use crate::input::{self, Input, InputIdentifier, InputKey, InputView};
use crate::order::{self, Comparison};
use crate::path::{self, FilePath, PathPart};
use crate::text;
use crate::time::{self, Timestamp};
use vstd::prelude::*;
use vstd::std_specs::cmp::{PartialEqSpec, PartialOrdSpec};
use vstd::utf8::*;

verus! {

/// In a dictionary order, the first place at which two sequences differ decides.
pub proof fn the_first_difference_decides<T>(
    order: spec_fn(T, T) -> Comparison,
    a: Seq<T>,
    b: Seq<T>,
    n: int,
)
    requires
        0 <= n < a.len(),
        n < b.len(),
        forall|i: int| 0 <= i < n ==> order(#[trigger] a[i], b[i]) == Comparison::Equal,
        order(a[n], b[n]) != Comparison::Equal,
    ensures
        order::dictionary_order(order, a, b) == order(a[n], b[n]),
    decreases n,
{
    if n > 0 {
        let (x, y) = (a.drop_first(), b.drop_first());
        assert(a[0] == a.first() && b[0] == b.first());
        assert(order(a[0], b[0]) == Comparison::Equal);
        assert forall|i: int| 0 <= i < n - 1 implies order(#[trigger] x[i], y[i])
            == Comparison::Equal by {
            assert(order(a[i + 1], b[i + 1]) == Comparison::Equal);
        }
        the_first_difference_decides(order, x, y, n - 1);
    }
}

/// In a dictionary order, of two sequences that do not differ the shorter one comes
/// first.
pub proof fn the_shorter_comes_first<T>(
    order: spec_fn(T, T) -> Comparison,
    a: Seq<T>,
    b: Seq<T>,
)
    requires
        forall|i: int|
            0 <= i < a.len() && i < b.len() ==> order(#[trigger] a[i], b[i]) == Comparison::Equal,
    ensures
        a.len() < b.len() ==> order::dictionary_order(order, a, b) == Comparison::Less,
        a.len() == b.len() ==> order::dictionary_order(order, a, b) == Comparison::Equal,
        a.len() > b.len() ==> order::dictionary_order(order, a, b) == Comparison::Greater,
    decreases a.len(),
{
    if a.len() > 0 && b.len() > 0 {
        let (x, y) = (a.drop_first(), b.drop_first());
        assert(a[0] == a.first() && b[0] == b.first());
        assert(order(a[0], b[0]) == Comparison::Equal);
        assert forall|i: int| 0 <= i < x.len() && i < y.len() implies order(#[trigger] x[i], y[i])
            == Comparison::Equal by {
            assert(order(a[i + 1], b[i + 1]) == Comparison::Equal);
        }
        the_shorter_comes_first(order, x, y);
    }
}

/// The lesser byte at the first place where two byte strings differ comes first.
pub proof fn the_lesser_byte_comes_first(a: Seq<u8>, b: Seq<u8>, n: int)
    requires
        0 <= n < a.len(),
        n < b.len(),
        forall|i: int| 0 <= i < n ==> #[trigger] a[i] == b[i],
        a[n] < b[n],
    ensures
        order::bytes_order(a, b) == Comparison::Less,
        order::bytes_order(b, a) == Comparison::Greater,
{
    the_first_difference_decides(order::byte_order(), a, b, n);
    assert forall|i: int| 0 <= i < n implies (order::byte_order())(#[trigger] b[i], a[i])
        == Comparison::Equal by {
        assert(a[i] == b[i]);
    }
    the_first_difference_decides(order::byte_order(), b, a, n);
}

/// A byte string comes before every longer one that starts with it, and is equal to
/// itself.
pub proof fn a_prefix_comes_first(a: Seq<u8>, more: Seq<u8>)
    ensures
        order::bytes_order(a, a) == Comparison::Equal,
        more.len() > 0 ==> order::bytes_order(a, a + more) == Comparison::Less,
        more.len() > 0 ==> order::bytes_order(a + more, a) == Comparison::Greater,
{
    the_shorter_comes_first(order::byte_order(), a, a);
    the_shorter_comes_first(order::byte_order(), a, a + more);
    the_shorter_comes_first(order::byte_order(), a + more, a);
}

/// Text is ordered by its bytes.
pub proof fn text_is_ordered_by_bytes(a: Seq<char>, b: Seq<char>, n: int)
    requires
        0 <= n < encode_utf8(a).len(),
        n < encode_utf8(b).len(),
        forall|i: int| 0 <= i < n ==> #[trigger] encode_utf8(a)[i] == encode_utf8(b)[i],
        encode_utf8(a)[n] < encode_utf8(b)[n],
    ensures
        text::text_order(a, b) == Comparison::Less,
        text::text_order(b, a) == Comparison::Greater,
{
    the_lesser_byte_comes_first(encode_utf8(a), encode_utf8(b), n);
}

/// Of two texts of which one is the start of the other, the shorter one comes first.
pub proof fn the_shorter_text_comes_first(a: Seq<char>, b: Seq<char>, more: Seq<u8>)
    requires
        encode_utf8(b) == encode_utf8(a) + more,
        more.len() > 0,
    ensures
        text::text_order(a, b) == Comparison::Less,
        text::text_order(b, a) == Comparison::Greater,
        text::text_order(a, a) == Comparison::Equal,
{
    a_prefix_comes_first(encode_utf8(a), more);
}

/// Components are ordered by their kind, the root first, then `.`, then `..`, then
/// names; names among themselves by their bytes.
pub proof fn components_are_ordered_by_kind(a: PathPart, b: PathPart)
    ensures
        (path::part_order())(a, b) == (match (a, b) {
            (PathPart::Name(x), PathPart::Name(y)) => order::bytes_order(x, y),
            (PathPart::Name(_), _) => Comparison::Greater,
            (_, PathPart::Name(_)) => Comparison::Less,
            (PathPart::Root, PathPart::Root) => Comparison::Equal,
            (PathPart::Root, _) => Comparison::Less,
            (_, PathPart::Root) => Comparison::Greater,
            (PathPart::Current, PathPart::Parent) => Comparison::Less,
            (PathPart::Parent, PathPart::Current) => Comparison::Greater,
            _ => Comparison::Equal,
        }),
{
    a_prefix_comes_first(Seq::empty(), Seq::empty());
}

/// Paths are ordered by the first component at which they differ.
pub proof fn paths_are_ordered_by_components(a: Seq<u8>, b: Seq<u8>, n: int)
    requires
        0 <= n < path::components(a).len(),
        n < path::components(b).len(),
        forall|i: int|
            0 <= i < n ==> #[trigger] path::components(a)[i] == path::components(b)[i],
        path::components(a)[n] != path::components(b)[n],
    ensures
        path::path_order(a, b) == (path::part_order())(
            path::components(a)[n],
            path::components(b)[n],
        ),
        path::components_order(path::components(a), path::components(b)) == path::path_order(a, b),
{
    let (x, y) = (path::components(a), path::components(b));
    path::components_order_is_total();
    assert forall|i: int| 0 <= i < n implies (path::part_order())(#[trigger] x[i], y[i])
        == Comparison::Equal by {
        components_are_ordered_by_kind(x[i], y[i]);
        if let PathPart::Name(name) = x[i] {
            a_prefix_comes_first(name, Seq::empty());
        }
    }
    components_are_ordered_by_kind(x[n], y[n]);
    order::bytes_order_is_total();
    the_first_difference_decides(path::part_order(), x, y, n);
}

/// A path comes before every path below it, and is equal to every spelling of itself.
pub proof fn a_path_comes_before_those_below_it(a: Seq<u8>, b: Seq<u8>)
    requires
        path::path_starts_with(b, a),
    ensures
        path::components(a).len() < path::components(b).len() ==> path::path_order(a, b)
            == Comparison::Less && path::path_order(b, a) == Comparison::Greater,
        path::components(a).len() == path::components(b).len() ==> path::path_order(a, b)
            == Comparison::Equal,
{
    let (x, y) = (path::components(a), path::components(b));
    assert forall|i: int| 0 <= i < x.len() implies x[i] == y[i] by {
        assert(y.subrange(0, x.len() as int)[i] == y[i]);
    }
    assert forall|i: int| 0 <= i < x.len() && i < y.len() implies (path::part_order())(
        #[trigger] x[i],
        y[i],
    ) == Comparison::Equal by {
        components_are_ordered_by_kind(x[i], y[i]);
        if let PathPart::Name(name) = x[i] {
            a_prefix_comes_first(name, Seq::empty());
        }
    }
    assert forall|i: int| 0 <= i < y.len() && i < x.len() implies (path::part_order())(
        #[trigger] y[i],
        x[i],
    ) == Comparison::Equal by {
        components_are_ordered_by_kind(y[i], x[i]);
        if let PathPart::Name(name) = x[i] {
            a_prefix_comes_first(name, Seq::empty());
        }
    }
    the_shorter_comes_first(path::part_order(), x, y);
    the_shorter_comes_first(path::part_order(), y, x);
}

/// Two paths are the same, and one starts with the other, by their components.
pub proof fn paths_are_the_same_by_components(a: Seq<u8>, b: Seq<u8>)
    ensures
        path::same_path(a, b) <==> path::components(a) == path::components(b),
        path::same_path(a, b) <==> path::path_order(a, b) == Comparison::Equal,
        path::path_starts_with(a, b) <==> path::components(b).len() <= path::components(a).len()
            && forall|i: int|
            0 <= i < path::components(b).len() ==> #[trigger] path::components(b)[i]
                == path::components(a)[i],
{
    path::components_order_is_total();
    let (x, y) = (path::components(a), path::components(b));
    if path::path_starts_with(a, b) {
        assert forall|i: int| 0 <= i < y.len() implies #[trigger] y[i] == x[i] by {
            assert(x.subrange(0, y.len() as int)[i] == x[i]);
        }
    }
    if y.len() <= x.len() && forall|i: int| 0 <= i < y.len() ==> #[trigger] y[i] == x[i] {
        assert(x.subrange(0, y.len() as int) =~= y);
    }
}

/// Of two points in time the earlier one comes first.
pub proof fn the_earlier_time_comes_first(a: Timestamp, b: Timestamp)
    ensures
        time::time_order(a, b) == Comparison::Less <==> a.secs < b.secs || a.secs == b.secs
            && a.nanos < b.nanos,
        time::time_order(a, b) == Comparison::Greater <==> a.secs > b.secs || a.secs == b.secs
            && a.nanos > b.nanos,
        time::time_order(a, b) == Comparison::Equal <==> a == b,
        a.nanos < 1_000_000_000 && b.nanos < 1_000_000_000 ==> (time::time_order(a, b)
            == Comparison::Less <==> a.secs * 1_000_000_000 + a.nanos < b.secs * 1_000_000_000
            + b.nanos),
        a.whole_second().secs == a.secs,
        a.whole_second().nanos == 0,
{
}

/// Files come before variables. Of files the path decides, of one path the time of
/// modification, the most recent first. Of variables the name decides.
pub proof fn files_come_first_and_recent_ones_before_older(a: InputView, b: InputView)
    ensures
        match (a, b) {
            (InputView::File(_), InputView::Env(_)) => input::input_order(a, b) == Comparison::Less,
            (InputView::Env(_), InputView::File(_)) => input::input_order(a, b)
                == Comparison::Greater,
            (InputView::Env(x), InputView::Env(y)) => input::input_order(a, b) == text::text_order(
                x.name,
                y.name,
            ) && input::env_order(x, y) == input::input_order(a, b),
            (InputView::File(x), InputView::File(y)) => {
                &&& input::file_order(x, y) == input::input_order(a, b)
                &&& path::components(x.path) != path::components(y.path) ==> input::input_order(
                    a,
                    b,
                ) == path::path_order(x.path, y.path)
                &&& path::components(x.path) == path::components(y.path) ==> {
                    let later = x.modified_at.secs > y.modified_at.secs || x.modified_at.secs
                        == y.modified_at.secs && x.modified_at.nanos > y.modified_at.nanos;
                    &&& later ==> input::input_order(a, b) == Comparison::Less
                    &&& x.modified_at == y.modified_at ==> input::input_order(a, b)
                        == Comparison::Equal
                    &&& !later && x.modified_at != y.modified_at ==> input::input_order(a, b)
                        == Comparison::Greater
                }
            },
        },
{
    path::components_order_is_total();
}

/// Inputs without their contents are ordered in the same way.
pub proof fn keys_are_ordered_like_inputs(a: InputKey, b: InputKey)
    ensures
        input::key_order(a, b) == (match (a, b) {
            (InputKey::File(x), InputKey::File(y)) => path::components_order(x, y),
            (InputKey::Env(x), InputKey::Env(y)) => text::text_order(x, y),
            (InputKey::File(_), InputKey::Env(_)) => Comparison::Less,
            (InputKey::Env(_), InputKey::File(_)) => Comparison::Greater,
        }),
{
}

/// The standard library's comparison of two inputs says what theirs does.
pub proof fn std_compares_alike(a: Input, b: Input)
    ensures
        PartialOrdSpec::partial_cmp_spec(&a, &b) == Some(std::cmp::Ordering::Less)
            <==> input::input_order(a@, b@) == Comparison::Less,
        PartialOrdSpec::partial_cmp_spec(&a, &b) == Some(std::cmp::Ordering::Equal)
            <==> input::input_order(a@, b@) == Comparison::Equal,
        PartialOrdSpec::partial_cmp_spec(&a, &b) == Some(std::cmp::Ordering::Greater)
            <==> input::input_order(a@, b@) == Comparison::Greater,
        match (a, b) {
            (Input::File(x), Input::File(y)) => PartialOrdSpec::partial_cmp_spec(&x, &y)
                == PartialOrdSpec::partial_cmp_spec(&a, &b),
            (Input::Env(x), Input::Env(y)) => PartialOrdSpec::partial_cmp_spec(&x, &y)
                == PartialOrdSpec::partial_cmp_spec(&a, &b),
            _ => true,
        },
        Input::obeys_partial_cmp_spec(),
        Comparison::Less.std_ordering() == std::cmp::Ordering::Less,
        Comparison::Equal.std_ordering() == std::cmp::Ordering::Equal,
        Comparison::Greater.std_ordering() == std::cmp::Ordering::Greater,
{
}

/// `==` on paths, identifiers and inputs says that all fields are equal, paths by
/// their components.
pub proof fn std_equality_is_that_of_fields(
    p: FilePath,
    q: FilePath,
    a: Input,
    b: Input,
    i: InputIdentifier,
    j: InputIdentifier,
)
    ensures
        Input::obeys_eq_spec(),
        FilePath::obeys_eq_spec(),
        InputIdentifier::obeys_eq_spec(),
        PartialEqSpec::eq_spec(&p, &q) <==> path::components(p.bytes@) == path::components(q.bytes@),
        PartialEqSpec::eq_spec(&a, &b) <==> match (a, b) {
            (Input::File(x), Input::File(y)) => {
                &&& path::components(x.path.bytes@) == path::components(y.path.bytes@)
                &&& x.is_directory == y.is_directory
                &&& x@.content_hash == y@.content_hash
                &&& x.modified_at == y.modified_at
            },
            (Input::Env(x), Input::Env(y)) => x.name@ == y.name@ && x@.content_hash
                == y@.content_hash,
            _ => false,
        },
        match (a, b) {
            (Input::File(x), Input::File(y)) => PartialEqSpec::eq_spec(&x, &y)
                == PartialEqSpec::eq_spec(&a, &b),
            (Input::Env(x), Input::Env(y)) => PartialEqSpec::eq_spec(&x, &y)
                == PartialEqSpec::eq_spec(&a, &b),
            _ => true,
        },
        PartialEqSpec::eq_spec(&i, &j) <==> match (i, j) {
            (InputIdentifier::File(x), InputIdentifier::File(y)) => path::components(x.bytes@)
                == path::components(y.bytes@),
            (InputIdentifier::Env(x), InputIdentifier::Env(y)) => x@ == y@,
            _ => false,
        },
{
}

} // verus!
