//! What the components of a path are.
//!
//! Every path is a word between separators, or one that ends in a separator, or such
//! a one with a word behind it. For each of these the laws say what components it
//! has.
use crate::command;
use crate::path::{self, PathPart};
use vstd::prelude::*;
use vstd::utf8::*;

verus! {

proof fn part_end_before_separator(text: Seq<u8>, more: Seq<u8>, i: int)
    requires
        0 <= i < text.len(),
        text.last() == 0x2f,
    ensures
        path::part_end(text + more, i) == path::part_end(text, i) < text.len(),
    decreases text.len() - i,
{
    if text[i] != 0x2f {
        assert(i < text.len() - 1);
        part_end_before_separator(text, more, i + 1);
    }
}

proof fn part_end_of_word(text: Seq<u8>, i: int)
    requires
        0 <= i <= text.len(),
        forall|j: int| i <= j < text.len() ==> #[trigger] text[j] != 0x2f,
    ensures
        path::part_end(text, i) == text.len(),
    decreases text.len() - i,
{
    if i < text.len() {
        assert(text[i] != 0x2f);
        part_end_of_word(text, i + 1);
    }
}

proof fn parts_of_concatenation(text: Seq<u8>, more: Seq<u8>, i: int)
    requires
        0 <= i <= text.len(),
        text.len() > 0,
        text.last() == 0x2f,
    ensures
        path::parts_from(text + more, i) == path::parts_from(text, i) + path::parts_from(
            text + more,
            text.len() as int,
        ),
    decreases text.len() - i,
{
    let all = text + more;
    let tail = path::parts_from(all, text.len() as int);
    if i < text.len() {
        assert(all[i] == text[i]);
        if text[i] == 0x2f {
            parts_of_concatenation(text, more, i + 1);
        } else {
            part_end_before_separator(text, more, i);
            path::part_end_bounds(text, i);
            let end = path::part_end(text, i);
            assert(all.subrange(i, end) =~= text.subrange(i, end));
            parts_of_concatenation(text, more, end);
        }
        assert(path::parts_from(all, i) =~= path::parts_from(text, i) + tail);
    } else {
        assert(path::parts_from(text, i) + tail =~= tail);
    }
}

proof fn part_end_with_separator(text: Seq<u8>, i: int)
    requires
        0 <= i <= text.len(),
    ensures
        path::part_end(text.push(0x2f), i) == path::part_end(text, i),
    decreases text.len() - i,
{
    if i < text.len() && text[i] != 0x2f {
        part_end_with_separator(text, i + 1);
    }
}

proof fn parts_with_separator(text: Seq<u8>, i: int)
    requires
        0 <= i <= text.len(),
        text.len() > 0,
    ensures
        path::parts_from(text.push(0x2f), i) == path::parts_from(text, i),
    decreases text.len() - i,
{
    let all = text.push(0x2f);
    if i < text.len() {
        assert(all[i] == text[i]);
        if text[i] == 0x2f {
            parts_with_separator(text, i + 1);
        } else {
            part_end_with_separator(text, i);
            path::part_end_bounds(text, i);
            let end = path::part_end(text, i);
            assert(all.subrange(i, end) =~= text.subrange(i, end));
            parts_with_separator(text, end);
        }
    } else {
        assert(path::parts_from(all, i + 1) =~= Seq::empty());
        assert(path::parts_from(all, i) =~= Seq::empty());
    }
}

/// The empty path has no component, and `/` alone is the root.
pub proof fn the_shortest_paths()
    ensures
        path::components(Seq::empty()) == Seq::<PathPart>::empty(),
        path::components(seq![0x2fu8]) == seq![PathPart::Root],
{
    let root = seq![0x2fu8];
    assert(path::parts_from(root, 1) =~= Seq::empty());
    assert(path::components(root) =~= seq![PathPart::Root]);
}

/// A separator behind a path changes nothing about its components.
pub proof fn a_trailing_separator_means_nothing(text: Seq<u8>)
    requires
        text.len() > 0,
    ensures
        path::components(text.push(0x2f)) == path::components(text),
{
    parts_with_separator(text, 0);
}

/// A word without separators is one component: `.` at the start stands for the
/// current directory, `..` for the parent, and every other word is a name.
pub proof fn a_word_is_one_component(word: Seq<u8>)
    requires
        word.len() > 0,
        forall|i: int| 0 <= i < word.len() ==> #[trigger] word[i] != 0x2f,
    ensures
        word == seq![0x2eu8] ==> path::components(word) == seq![PathPart::Current],
        word == seq![0x2eu8, 0x2eu8] ==> path::components(word) == seq![PathPart::Parent],
        word != seq![0x2eu8] && word != seq![0x2eu8, 0x2eu8] ==> path::components(word) == seq![
            PathPart::Name(word),
        ],
{
    part_end_of_word(word, 0);
    assert(word[0] != 0x2f);
    assert(word.subrange(0, word.len() as int) =~= word);
    assert(path::parts_from(word, word.len() as int) =~= Seq::empty());
    assert(path::components(word) =~= path::part_of(word, true));
}

/// A word without separators behind a path that ends in one is one more component:
/// `.` stands for none there, `..` for the parent, and every other word is a name.
pub proof fn one_more_word_is_one_more_component(text: Seq<u8>, word: Seq<u8>)
    requires
        text.len() > 0,
        text.last() == 0x2f,
        word.len() > 0,
        forall|i: int| 0 <= i < word.len() ==> #[trigger] word[i] != 0x2f,
    ensures
        word == seq![0x2eu8] ==> path::components(text + word) == path::components(text),
        word == seq![0x2eu8, 0x2eu8] ==> path::components(text + word) == path::components(
            text,
        ).push(PathPart::Parent),
        word != seq![0x2eu8] && word != seq![0x2eu8, 0x2eu8] ==> path::components(text + word)
            == path::components(text).push(PathPart::Name(word)),
{
    let all = text + word;
    let n = text.len() as int;
    parts_of_concatenation(text, word, 0);
    assert forall|j: int| n <= j < all.len() implies #[trigger] all[j] != 0x2f by {
        assert(word[j - n] != 0x2f);
    }
    part_end_of_word(all, n);
    assert(all[n] != 0x2f);
    assert(all.subrange(n, all.len() as int) =~= word);
    assert(path::parts_from(all, all.len() as int) =~= Seq::empty());
    assert(path::parts_from(all, n) =~= path::part_of(word, false));
    let before = path::components(text);
    assert(before + Seq::empty() =~= before);
    assert(before + seq![PathPart::Parent] =~= before.push(PathPart::Parent));
    assert(before + seq![PathPart::Name(word)] =~= before.push(PathPart::Name(word)));
}

proof fn store_components()
    ensures
        path::components(encode_utf8("/"@)) == seq![PathPart::Root],
        path::components(encode_utf8("/nix/store"@)) == seq![
            PathPart::Root,
            PathPart::Name(seq![0x6eu8, 0x69, 0x78]),
            PathPart::Name(seq![0x73u8, 0x74, 0x6f, 0x72, 0x65]),
        ],
{
    reveal_strlit("/");
    reveal_strlit("/nix/store");
    let root = seq![0x2fu8];
    let nix = seq![0x6eu8, 0x69, 0x78];
    let store = seq![0x73u8, 0x74, 0x6f, 0x72, 0x65];
    assert(is_ascii_chars("/"@));
    assert(is_ascii_chars("/nix/store"@));
    is_ascii_chars_encode_utf8("/"@);
    is_ascii_chars_encode_utf8("/nix/store"@);
    assert(encode_utf8("/"@) =~= root);
    assert(encode_utf8("/nix/store"@) =~= (root + nix).push(0x2f) + store);
    the_shortest_paths();
    one_more_word_is_one_more_component(root, nix);
    a_trailing_separator_means_nothing(root + nix);
    one_more_word_is_one_more_component((root + nix).push(0x2f), store);
    assert(path::components(encode_utf8("/nix/store"@)) =~= seq![
        PathPart::Root,
        PathPart::Name(nix),
        PathPart::Name(store),
    ]);
}

/// A reported path matters to the cache if and only if it is absolute, does not start
/// with the components of `/nix/store`, and not with those of an excluded path.
pub proof fn absolute_paths_outside_the_store_matter(source: Seq<u8>, excluded: Seq<Seq<u8>>)
    ensures
        command::is_tracked(source, excluded) <==> {
            let parts = path::components(source);
            &&& parts.len() > 0
            &&& parts[0] == PathPart::Root
            &&& !(parts.len() >= 3 && parts[1] == PathPart::Name(seq![0x6eu8, 0x69, 0x78])
                && parts[2] == PathPart::Name(seq![0x73u8, 0x74, 0x6f, 0x72, 0x65]))
            &&& forall|i: int|
                0 <= i < excluded.len() ==> !path::components(
                    #[trigger] excluded[i],
                ).is_prefix_of(parts)
        },
{
    store_components();
    let parts = path::components(source);
    let root = path::components(encode_utf8("/"@));
    let store = path::components(encode_utf8("/nix/store"@));
    if parts.len() > 0 {
        assert(parts.subrange(0, 1)[0] == parts[0]);
        if parts[0] == PathPart::Root {
            assert(parts.subrange(0, 1) =~= root);
        }
    }
    if parts.len() >= 3 {
        let three = parts.subrange(0, 3);
        assert(three[0] == parts[0] && three[1] == parts[1] && three[2] == parts[2]);
        if parts[0] == store[0] && parts[1] == store[1] && parts[2] == store[2] {
            assert(three =~= store);
        }
    }
}

} // verus!
