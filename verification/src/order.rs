//! Comparisons and the orders built from them.
//!
//! Every order of this crate is a function to [`Comparison`], so that "less",
//! "equal" and "greater" are told apart once and for all.
use vstd::prelude::*;

verus! {

/// How one value stands to another.
#[derive(Clone, Copy, Debug, PartialEq, Eq, Structural)]
pub enum Comparison {
    Less,
    Equal,
    Greater,
}

impl Comparison {
    /// How the second value stands to the first.
    pub open spec fn flip(self) -> Comparison {
        match self {
            Comparison::Less => Comparison::Greater,
            Comparison::Equal => Comparison::Equal,
            Comparison::Greater => Comparison::Less,
        }
    }

    /// The same comparison as the standard library's type for it.
    pub open spec fn std_ordering(self) -> std::cmp::Ordering {
        match self {
            Comparison::Less => std::cmp::Ordering::Less,
            Comparison::Equal => std::cmp::Ordering::Equal,
            Comparison::Greater => std::cmp::Ordering::Greater,
        }
    }

    /// The same comparison as the standard library's type for it.
    pub fn into_std(self) -> (result: std::cmp::Ordering)
        ensures
            result == self.std_ordering(),
    {
        match self {
            Comparison::Less => std::cmp::Ordering::Less,
            Comparison::Equal => std::cmp::Ordering::Equal,
            Comparison::Greater => std::cmp::Ordering::Greater,
        }
    }

    /// This comparison where it decides, `other` where it does not.
    pub open spec fn or_else(self, other: Comparison) -> Comparison {
        match self {
            Comparison::Equal => other,
            decided => decided,
        }
    }
}

/// The order of integers.
pub open spec fn int_order(a: int, b: int) -> Comparison {
    if a < b {
        Comparison::Less
    } else if a == b {
        Comparison::Equal
    } else {
        Comparison::Greater
    }
}

/// `order` compares any two values, never says that one comes both before and
/// after another, and is transitive. Different values may be equal in it.
pub open spec fn total_preorder<T>(order: spec_fn(T, T) -> Comparison) -> bool {
    &&& forall|a: T, b: T| #![trigger order(a, b)] order(b, a) == order(a, b).flip()
    &&& forall|a: T, b: T, c: T|
        #![trigger order(a, b), order(b, c)]
        order(a, b) != Comparison::Greater && order(b, c) != Comparison::Greater ==> {
            &&& order(a, c) != Comparison::Greater
            &&& order(a, c) == Comparison::Equal ==> order(a, b) == Comparison::Equal && order(b, c)
                == Comparison::Equal
        }
}

/// Only a value itself is equal to it in `order`.
pub open spec fn antisymmetric<T>(order: spec_fn(T, T) -> Comparison) -> bool {
    forall|a: T, b: T| #[trigger] order(a, b) == Comparison::Equal <==> a == b
}

/// The dictionary order on sequences: the first place where they differ
/// decides, and a proper prefix comes first.
pub open spec fn dictionary_order<T>(
    order: spec_fn(T, T) -> Comparison,
    a: Seq<T>,
    b: Seq<T>,
) -> Comparison
    decreases a.len(),
{
    if a.len() == 0 {
        if b.len() == 0 {
            Comparison::Equal
        } else {
            Comparison::Less
        }
    } else if b.len() == 0 {
        Comparison::Greater
    } else {
        order(a.first(), b.first()).or_else(
            dictionary_order(order, a.drop_first(), b.drop_first()),
        )
    }
}

/// A dictionary order says of two sequences the opposite of what it says of them
/// when they change places.
pub proof fn dictionary_order_flips<T>(order: spec_fn(T, T) -> Comparison, a: Seq<T>, b: Seq<T>)
    requires
        total_preorder(order),
    ensures
        dictionary_order(order, b, a) == dictionary_order(order, a, b).flip(),
    decreases a.len(),
{
    if a.len() > 0 && b.len() > 0 {
        assert(order(b.first(), a.first()) == order(a.first(), b.first()).flip());
        dictionary_order_flips(order, a.drop_first(), b.drop_first());
    }
}

proof fn dictionary_order_chains<T>(
    order: spec_fn(T, T) -> Comparison,
    a: Seq<T>,
    b: Seq<T>,
    c: Seq<T>,
)
    requires
        total_preorder(order),
        dictionary_order(order, a, b) != Comparison::Greater,
        dictionary_order(order, b, c) != Comparison::Greater,
    ensures
        dictionary_order(order, a, c) != Comparison::Greater,
        dictionary_order(order, a, c) == Comparison::Equal ==> dictionary_order(order, a, b)
            == Comparison::Equal && dictionary_order(order, b, c) == Comparison::Equal,
    decreases a.len(),
{
    if a.len() > 0 {
        let (x, y, z) = (a.first(), b.first(), c.first());
        assert(order(x, y) != Comparison::Greater && order(y, z) != Comparison::Greater);
        if order(x, y) == Comparison::Equal && order(y, z) == Comparison::Equal {
            dictionary_order_chains(order, a.drop_first(), b.drop_first(), c.drop_first());
            assert(order(y, x) == Comparison::Equal && order(z, y) == Comparison::Equal);
            assert(order(z, x) != Comparison::Greater);
            assert(order(x, z) == Comparison::Equal);
        }
    }
}

/// The dictionary order on sequences inherits from the order of their elements
/// that it is total and transitive.
pub proof fn dictionary_order_is_total<T>(order: spec_fn(T, T) -> Comparison)
    requires
        total_preorder(order),
    ensures
        total_preorder(|a: Seq<T>, b: Seq<T>| dictionary_order(order, a, b)),
{
    let lifted = |a: Seq<T>, b: Seq<T>| dictionary_order(order, a, b);
    assert forall|a: Seq<T>, b: Seq<T>|
        #![trigger lifted(a, b)]
        lifted(b, a) == lifted(a, b).flip() by {
        dictionary_order_flips(order, a, b);
    }
    assert forall|a: Seq<T>, b: Seq<T>, c: Seq<T>|
        #![trigger lifted(a, b), lifted(b, c)]
        lifted(a, b) != Comparison::Greater && lifted(b, c) != Comparison::Greater implies {
        &&& lifted(a, c) != Comparison::Greater
        &&& lifted(a, c) == Comparison::Equal ==> lifted(a, b) == Comparison::Equal && lifted(b, c)
            == Comparison::Equal
    } by {
        dictionary_order_chains(order, a, b, c);
    }
}

/// In a dictionary order over an order in which only a value itself is equal to
/// it, only a sequence itself is equal to it.
pub proof fn dictionary_order_equal_iff_same<T>(
    order: spec_fn(T, T) -> Comparison,
    a: Seq<T>,
    b: Seq<T>,
)
    requires
        antisymmetric(order),
    ensures
        dictionary_order(order, a, b) == Comparison::Equal <==> a == b,
    decreases a.len(),
{
    if a.len() > 0 && b.len() > 0 {
        dictionary_order_equal_iff_same(order, a.drop_first(), b.drop_first());
        assert(order(a.first(), b.first()) == Comparison::Equal <==> a.first() == b.first());
        if a.first() == b.first() && a.drop_first() == b.drop_first() {
            assert(a =~= seq![a.first()] + a.drop_first());
            assert(b =~= seq![b.first()] + b.drop_first());
        }
    } else {
        assert(a.len() == 0 && b.len() == 0 ==> a =~= b);
    }
}

/// The order of bytes by their value.
pub open spec fn byte_order() -> spec_fn(u8, u8) -> Comparison {
    |a: u8, b: u8| int_order(a as int, b as int)
}

/// The dictionary order of byte strings.
pub open spec fn bytes_order(a: Seq<u8>, b: Seq<u8>) -> Comparison {
    dictionary_order(byte_order(), a, b)
}

/// The order of byte strings is total and transitive, and only a byte string
/// itself is equal to it.
pub proof fn bytes_order_is_total()
    ensures
        total_preorder(|a: Seq<u8>, b: Seq<u8>| bytes_order(a, b)),
        forall|a: Seq<u8>, b: Seq<u8>| #[trigger]
            bytes_order(a, b) == Comparison::Equal <==> a == b,
{
    let order = byte_order();
    assert(total_preorder(order));
    assert(antisymmetric(order));
    dictionary_order_is_total(order);
    assert((|a: Seq<u8>, b: Seq<u8>| bytes_order(a, b)) =~= (|a: Seq<u8>, b: Seq<u8>|
        dictionary_order(order, a, b)));
    assert forall|a: Seq<u8>, b: Seq<u8>| #[trigger]
        bytes_order(a, b) == Comparison::Equal <==> a == b by {
        dictionary_order_equal_iff_same(order, a, b);
    }
}

/// Compares two byte strings.
pub fn compare_bytes(a: &[u8], b: &[u8]) -> (result: Comparison)
    ensures
        result == bytes_order(a@, b@),
{
    let mut i: usize = 0;
    assert(a@.skip(0) =~= a@ && b@.skip(0) =~= b@);
    while i < a.len() && i < b.len()
        invariant
            i <= a@.len(),
            i <= b@.len(),
            bytes_order(a@, b@) == bytes_order(a@.skip(i as int), b@.skip(i as int)),
        decreases a@.len() - i,
    {
        assert(a@.skip(i as int).drop_first() =~= a@.skip(i + 1));
        assert(b@.skip(i as int).drop_first() =~= b@.skip(i + 1));
        if a[i] < b[i] {
            return Comparison::Less;
        }
        if a[i] > b[i] {
            return Comparison::Greater;
        }
        i += 1;
    }
    if i < a.len() {
        Comparison::Greater
    } else if i < b.len() {
        Comparison::Less
    } else {
        Comparison::Equal
    }
}

} // verus!
