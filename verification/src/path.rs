//! File paths as byte strings, compared by their components.
//!
//! A path is what a Unix system takes for one: any string of bytes, in which `/`
//! separates components. Two paths that differ only in repeated or trailing
//! separators, or in `.` components after the start, are the same path.
use crate::order::{self, compare_bytes, Comparison};
use crate::text::{self, lossy_text};
use vstd::prelude::*;
use vstd::string::*;
use vstd::utf8::*;

verus! {

/// The byte that separates components.
pub const SEPARATOR: u8 = 0x2f;

/// The byte that the special components `.` and `..` are made of.
pub const DOT: u8 = 0x2e;

/// One component of a path.
#[verifier::ext_equal]
pub enum PathPart {
    /// The root directory, at the start of an absolute path.
    Root,
    /// `.` at the start of a relative path.
    Current,
    /// `..`.
    Parent,
    /// An ordinary name.
    Name(Seq<u8>),
}

/// The place of a component's kind in the order of components.
pub open spec fn part_rank(part: PathPart) -> int {
    match part {
        PathPart::Root => 0,
        PathPart::Current => 1,
        PathPart::Parent => 2,
        PathPart::Name(_) => 3,
    }
}

/// The bytes of an ordinary name, and none for the other components.
pub open spec fn part_text(part: PathPart) -> Seq<u8> {
    match part {
        PathPart::Name(text) => text,
        _ => Seq::empty(),
    }
}

/// The order of components: by kind, names among themselves by their bytes.
pub open spec fn part_order() -> spec_fn(PathPart, PathPart) -> Comparison {
    |a: PathPart, b: PathPart|
        order::int_order(part_rank(a), part_rank(b)).or_else(order::bytes_order(part_text(a), part_text(b)))
}

/// Where the component that covers position `i` of `text` ends.
pub open spec fn part_end(text: Seq<u8>, i: int) -> int
    decreases text.len() - i,
{
    if i < 0 || i >= text.len() || text[i] == SEPARATOR {
        i
    } else {
        part_end(text, i + 1)
    }
}

/// The component, if any, that the bytes between two separators stand for.
pub open spec fn part_of(word: Seq<u8>, at_start: bool) -> Seq<PathPart> {
    if word == seq![DOT] {
        if at_start {
            seq![PathPart::Current]
        } else {
            seq![]
        }
    } else if word == seq![DOT, DOT] {
        seq![PathPart::Parent]
    } else {
        seq![PathPart::Name(word)]
    }
}

/// A component ends no earlier than it starts, and within the path.
pub proof fn part_end_bounds(text: Seq<u8>, i: int)
    requires
        0 <= i <= text.len(),
    ensures
        i <= part_end(text, i) <= text.len(),
        i < text.len() && text[i] != SEPARATOR ==> i < part_end(text, i),
    decreases text.len() - i,
{
    if i < text.len() && text[i] != SEPARATOR {
        part_end_bounds(text, i + 1);
    }
}

/// The components of `text` from position `i` on.
pub open spec fn parts_from(text: Seq<u8>, i: int) -> Seq<PathPart>
    decreases text.len() - i,
{
    if i < 0 || i >= text.len() {
        seq![]
    } else if text[i] == SEPARATOR {
        let root = if i == 0 {
            seq![PathPart::Root]
        } else {
            seq![]
        };
        root + parts_from(text, i + 1)
    } else {
        let end = part_end(text, i);
        proof {
            part_end_bounds(text, i);
        }
        part_of(text.subrange(i, end), i == 0) + parts_from(text, end)
    }
}

/// The components of a path.
pub open spec fn components(text: Seq<u8>) -> Seq<PathPart> {
    parts_from(text, 0)
}

/// The order of component sequences.
pub open spec fn components_order(a: Seq<PathPart>, b: Seq<PathPart>) -> Comparison {
    order::dictionary_order(part_order(), a, b)
}

/// The order of paths: component by component.
pub open spec fn path_order(a: Seq<u8>, b: Seq<u8>) -> Comparison {
    components_order(components(a), components(b))
}

/// `a` and `b` name the same path.
pub open spec fn same_path(a: Seq<u8>, b: Seq<u8>) -> bool {
    components(a) == components(b)
}

/// The components of `base` are the first components of `path`.
pub open spec fn path_starts_with(path: Seq<u8>, base: Seq<u8>) -> bool {
    components(base).is_prefix_of(components(path))
}

proof fn part_order_is_total()
    ensures
        order::total_preorder(part_order()),
        order::antisymmetric(part_order()),
{
    order::bytes_order_is_total();
    let inner = |a: Seq<u8>, b: Seq<u8>| order::bytes_order(a, b);
    let order = part_order();
    assert forall|a: PathPart, b: PathPart| #![trigger order(a, b)] order(b, a) == order(
        a,
        b,
    ).flip() by {
        assert(inner(part_text(b), part_text(a)) == inner(part_text(a), part_text(b)).flip());
    }
    assert forall|a: PathPart, b: PathPart, c: PathPart|
        #![trigger order(a, b), order(b, c)]
        order(a, b) != Comparison::Greater && order(b, c) != Comparison::Greater implies {
        &&& order(a, c) != Comparison::Greater
        &&& order(a, c) == Comparison::Equal ==> order(a, b) == Comparison::Equal && order(b, c)
            == Comparison::Equal
    } by {
        let (x, y, z) = (part_text(a), part_text(b), part_text(c));
        assert(inner(x, y) != Comparison::Greater && inner(y, z) != Comparison::Greater ==> inner(
            x,
            z,
        ) != Comparison::Greater);
    }
    assert forall|a: PathPart, b: PathPart| #[trigger]
        order(a, b) == Comparison::Equal <==> a == b by {
        assert(order::bytes_order(part_text(a), part_text(b)) == Comparison::Equal <==> part_text(a)
            == part_text(b));
    }
}

/// The order of component sequences is total and transitive, and only a sequence
/// itself is equal to it.
pub proof fn components_order_is_total()
    ensures
        order::total_preorder(|a: Seq<PathPart>, b: Seq<PathPart>| components_order(a, b)),
        forall|a: Seq<PathPart>, b: Seq<PathPart>| #[trigger]
            components_order(a, b) == Comparison::Equal <==> a == b,
{
    let order = part_order();
    part_order_is_total();
    order::dictionary_order_is_total(order);
    assert((|a: Seq<PathPart>, b: Seq<PathPart>| components_order(a, b)) =~= (|
        a: Seq<PathPart>,
        b: Seq<PathPart>,
    | order::dictionary_order(order, a, b)));
    assert forall|a: Seq<PathPart>, b: Seq<PathPart>| #[trigger]
        components_order(a, b) == Comparison::Equal <==> a == b by {
        order::dictionary_order_equal_iff_same(order, a, b);
    }
}

/// The kind of a component.
#[derive(Clone, Copy, Debug, PartialEq, Eq, Structural)]
pub enum PartKind {
    Root,
    Current,
    Parent,
    Name,
}

/// A component of a path, by its kind and its place in the path's bytes.
struct PartAt {
    kind: PartKind,
    start: usize,
    end: usize,
}

impl PartAt {
    spec fn part(self, text: Seq<u8>) -> PathPart {
        match self.kind {
            PartKind::Root => PathPart::Root,
            PartKind::Current => PathPart::Current,
            PartKind::Parent => PathPart::Parent,
            PartKind::Name => PathPart::Name(text.subrange(self.start as int, self.end as int)),
        }
    }

    spec fn within(self, text: Seq<u8>) -> bool {
        self.start < self.end <= text.len()
    }
}

/// The first component of `text` at or after `from`, where components may start.
fn next_part(text: &[u8], from: usize) -> (result: Option<PartAt>)
    requires
        from <= text@.len(),
    ensures
        match result {
            None => parts_from(text@, from as int) == Seq::<PathPart>::empty(),
            Some(at) => {
                &&& at.within(text@)
                &&& from <= at.start
                &&& parts_from(text@, from as int) == seq![at.part(text@)] + parts_from(
                    text@,
                    at.end as int,
                )
            },
        },
{
    let mut i: usize = from;
    while i < text.len()
        invariant
            from <= i <= text@.len(),
            parts_from(text@, from as int) == parts_from(text@, i as int),
        decreases text@.len() - i,
    {
        if text[i] == SEPARATOR {
            if i == 0 {
                return Some(PartAt { kind: PartKind::Root, start: 0, end: 1 });
            }
            assert(parts_from(text@, i as int) =~= parts_from(text@, i + 1));
            i += 1;
        } else {
            let start: usize = i;
            let mut end: usize = i;
            while end < text.len() && text[end] != SEPARATOR
                invariant
                    start <= end <= text@.len(),
                    part_end(text@, start as int) == part_end(text@, end as int),
                decreases text@.len() - end,
            {
                end += 1;
            }
            proof {
                part_end_bounds(text@, start as int);
            }
            assert(end == part_end(text@, start as int));
            let ghost word = text@.subrange(start as int, end as int);
            if end - start == 1 && text[start] == DOT {
                assert(word =~= seq![DOT]);
                if start == 0 {
                    return Some(PartAt { kind: PartKind::Current, start, end });
                }
                assert(parts_from(text@, i as int) =~= parts_from(text@, end as int));
                i = end;
            } else if end - start == 2 && text[start] == DOT && text[start + 1] == DOT {
                assert(word =~= seq![DOT, DOT]);
                return Some(PartAt { kind: PartKind::Parent, start, end });
            } else {
                assert(word != seq![DOT]) by {
                    if word == seq![DOT] {
                        assert(word.len() == 1 && word[0] == DOT);
                    }
                }
                assert(word != seq![DOT, DOT]) by {
                    if word == seq![DOT, DOT] {
                        assert(word.len() == 2 && word[0] == DOT && word[1] == DOT);
                    }
                }
                return Some(PartAt { kind: PartKind::Name, start, end });
            }
        }
    }
    None
}

fn rank(kind: PartKind) -> (result: u8)
    ensures
        result == (match kind {
            PartKind::Root => 0int,
            PartKind::Current => 1,
            PartKind::Parent => 2,
            PartKind::Name => 3,
        }),
{
    match kind {
        PartKind::Root => 0,
        PartKind::Current => 1,
        PartKind::Parent => 2,
        PartKind::Name => 3,
    }
}

fn compare_parts(a: &[u8], at: &PartAt, b: &[u8], bt: &PartAt) -> (result: Comparison)
    requires
        at.within(a@),
        bt.within(b@),
    ensures
        result == part_order()(at.part(a@), bt.part(b@)),
{
    let (x, y): (u8, u8) = (rank(at.kind), rank(bt.kind));
    if x < y {
        Comparison::Less
    } else if x > y {
        Comparison::Greater
    } else {
        match at.kind {
            PartKind::Name => compare_bytes(&a[at.start..at.end], &b[bt.start..bt.end]),
            _ => {
                assert(order::bytes_order(Seq::<u8>::empty(), Seq::<u8>::empty())
                    == Comparison::Equal);
                Comparison::Equal
            },
        }
    }
}

/// Compares two paths component by component.
pub fn compare_paths(a: &[u8], b: &[u8]) -> (result: Comparison)
    ensures
        result == path_order(a@, b@),
{
    let mut i: usize = 0;
    let mut j: usize = 0;
    loop
        invariant
            i <= a@.len(),
            j <= b@.len(),
            path_order(a@, b@) == components_order(
                parts_from(a@, i as int),
                parts_from(b@, j as int),
            ),
        decreases a@.len() - i,
    {
        match (next_part(a, i), next_part(b, j)) {
            (None, None) => {
                return Comparison::Equal;
            },
            (None, Some(_)) => {
                return Comparison::Less;
            },
            (Some(_), None) => {
                return Comparison::Greater;
            },
            (Some(at), Some(bt)) => {
                assert(parts_from(a@, i as int).drop_first() =~= parts_from(a@, at.end as int));
                assert(parts_from(b@, j as int).drop_first() =~= parts_from(b@, bt.end as int));
                match compare_parts(a, &at, b, &bt) {
                    Comparison::Equal => {
                        i = at.end;
                        j = bt.end;
                    },
                    decided => {
                        return decided;
                    },
                }
            },
        }
    }
}

/// Whether the components of `base` are the first components of `path`.
pub fn starts_with(path: &[u8], base: &[u8]) -> (result: bool)
    ensures
        result == path_starts_with(path@, base@),
{
    let mut i: usize = 0;
    let mut j: usize = 0;
    proof {
        part_order_is_total();
    }
    loop
        invariant
            i <= path@.len(),
            j <= base@.len(),
            order::antisymmetric(part_order()),
            path_starts_with(path@, base@) == parts_from(base@, j as int).is_prefix_of(
                parts_from(path@, i as int),
            ),
        decreases base@.len() - j,
    {
        let ghost all = parts_from(path@, i as int);
        let ghost wanted = parts_from(base@, j as int);
        match (next_part(path, i), next_part(base, j)) {
            (_, None) => {
                assert(wanted.is_prefix_of(all));
                return true;
            },
            (None, Some(_)) => {
                return false;
            },
            (Some(at), Some(bt)) => {
                let ghost rest = parts_from(path@, at.end as int);
                let ghost wanted_rest = parts_from(base@, bt.end as int);
                assert(part_order()(at.part(path@), bt.part(base@)) == Comparison::Equal
                    <==> at.part(path@) == bt.part(base@));
                match compare_parts(path, &at, base, &bt) {
                    Comparison::Equal => {
                        proof {
                            prefix_step(at.part(path@), wanted_rest, rest);
                        }
                        i = at.end;
                        j = bt.end;
                    },
                    _ => {
                        assert(wanted[0] == bt.part(base@) && all[0] == at.part(path@));
                        proof {
                            if wanted.is_prefix_of(all) {
                                assert(wanted[0] == all.subrange(0, wanted.len() as int)[0]);
                            }
                        }
                        return false;
                    },
                }
            },
        }
    }
}

proof fn prefix_step(part: PathPart, a: Seq<PathPart>, b: Seq<PathPart>)
    ensures
        (seq![part] + a).is_prefix_of(seq![part] + b) == a.is_prefix_of(b),
{
    let (x, y) = (seq![part] + a, seq![part] + b);
    if x.is_prefix_of(y) {
        assert forall|k: int| 0 <= k < a.len() implies a[k] == b[k] by {
            assert(x[k + 1] == y.subrange(0, x.len() as int)[k + 1]);
        }
        assert(a =~= b.subrange(0, a.len() as int));
    }
    if a.is_prefix_of(b) {
        assert forall|k: int| 0 <= k < x.len() implies x[k] == y[k] by {
            if k > 0 {
                assert(a[k - 1] == b.subrange(0, a.len() as int)[k - 1]);
            }
        }
        assert(x =~= y.subrange(0, x.len() as int));
    }
}

/// A file path.
#[derive(Debug)]
pub struct FilePath {
    pub bytes: Vec<u8>,
}

impl View for FilePath {
    type V = Seq<u8>;

    open spec fn view(&self) -> Seq<u8> {
        self.bytes@
    }
}

impl FilePath {
    /// The path that these bytes spell.
    pub fn new(bytes: Vec<u8>) -> (result: FilePath)
        ensures
            result@ == bytes@,
    {
        FilePath { bytes }
    }

    /// The path that this text spells.
    pub fn from_text(text: &str) -> (result: FilePath)
        ensures
            result@ == encode_utf8(text@),
    {
        FilePath { bytes: text.as_bytes_vec() }
    }

    /// Whether the components of `base` are the first components of this path.
    pub fn starts_with(&self, base: &FilePath) -> (result: bool)
        ensures
            result == path_starts_with(self@, base@),
    {
        starts_with(self.bytes.as_slice(), base.bytes.as_slice())
    }

    /// How this path stands to another, component by component.
    pub fn compare(&self, other: &FilePath) -> (result: Comparison)
        ensures
            result == path_order(self@, other@),
    {
        compare_paths(self.bytes.as_slice(), other.bytes.as_slice())
    }

    /// Whether both name the same path.
    pub fn same(&self, other: &FilePath) -> (result: bool)
        ensures
            result == same_path(self@, other@),
    {
        proof {
            components_order_is_total();
        }
        match self.compare(other) {
            Comparison::Equal => true,
            _ => false,
        }
    }

    /// The path as text, for messages.
    pub fn display(&self) -> (result: String)
        ensures
            result@ == text::utf8_lossy(self@),
            valid_utf8(self@) ==> result@ == decode_utf8(self@),
    {
        lossy_text(self.bytes.as_slice())
    }
}

impl Clone for FilePath {
    fn clone(&self) -> (result: FilePath)
        ensures
            result@ == self@,
    {
        let bytes = self.bytes.clone();
        assert(bytes@ =~= self.bytes@);
        FilePath { bytes }
    }
}

impl PartialEq for FilePath {
    fn eq(&self, other: &FilePath) -> (result: bool) {
        self.same(other)
    }
}

impl vstd::std_specs::cmp::PartialEqSpecImpl for FilePath {
    open spec fn obeys_eq_spec() -> bool {
        true
    }

    open spec fn eq_spec(&self, other: &FilePath) -> bool {
        same_path(self@, other@)
    }
}

impl Eq for FilePath {

}

} // verus!
