//! Text: its order, and the pieces that messages are put together from.
use crate::order::{self, compare_bytes, Comparison};
use vstd::prelude::*;
use vstd::string::*;
use vstd::utf8::*;

verus! {

/// The order of text: by the bytes of its UTF-8 encoding.
pub open spec fn text_order(a: Seq<char>, b: Seq<char>) -> Comparison {
    order::bytes_order(encode_utf8(a), encode_utf8(b))
}

/// The order of text is total and transitive, and only a text itself is equal to it.
pub proof fn text_order_is_total()
    ensures
        order::total_preorder(|a: Seq<char>, b: Seq<char>| text_order(a, b)),
        forall|a: Seq<char>, b: Seq<char>| #[trigger]
            text_order(a, b) == Comparison::Equal <==> a == b,
{
    order::bytes_order_is_total();
    let inner = |a: Seq<u8>, b: Seq<u8>| order::bytes_order(a, b);
    let outer = |a: Seq<char>, b: Seq<char>| text_order(a, b);
    assert forall|a: Seq<char>, b: Seq<char>| #![trigger outer(a, b)] outer(b, a) == outer(
        a,
        b,
    ).flip() by {
        assert(inner(encode_utf8(b), encode_utf8(a)) == inner(
            encode_utf8(a),
            encode_utf8(b),
        ).flip());
    }
    assert forall|a: Seq<char>, b: Seq<char>, c: Seq<char>|
        #![trigger outer(a, b), outer(b, c)]
        outer(a, b) != Comparison::Greater && outer(b, c) != Comparison::Greater implies {
        &&& outer(a, c) != Comparison::Greater
        &&& outer(a, c) == Comparison::Equal ==> outer(a, b) == Comparison::Equal && outer(b, c)
            == Comparison::Equal
    } by {
        let (x, y, z) = (encode_utf8(a), encode_utf8(b), encode_utf8(c));
        assert(inner(x, y) != Comparison::Greater && inner(y, z) != Comparison::Greater);
    }
    assert forall|a: Seq<char>, b: Seq<char>| #[trigger]
        text_order(a, b) == Comparison::Equal <==> a == b by {
        encode_utf8_decode_utf8(a);
        encode_utf8_decode_utf8(b);
    }
}

/// Compares two texts.
pub fn compare_text(a: &str, b: &str) -> (result: Comparison)
    ensures
        result == text_order(a@, b@),
{
    compare_bytes(a.as_bytes(), b.as_bytes())
}

/// A decimal digit.
pub open spec fn digit(d: nat) -> Seq<char> {
    if d == 0 {
        "0"@
    } else if d == 1 {
        "1"@
    } else if d == 2 {
        "2"@
    } else if d == 3 {
        "3"@
    } else if d == 4 {
        "4"@
    } else if d == 5 {
        "5"@
    } else if d == 6 {
        "6"@
    } else if d == 7 {
        "7"@
    } else if d == 8 {
        "8"@
    } else {
        "9"@
    }
}

/// A number in decimal notation.
pub open spec fn decimal(n: nat) -> Seq<char>
    decreases n,
{
    if n < 10 {
        digit(n)
    } else {
        decimal(n / 10) + digit(n % 10)
    }
}

/// Appends `n` in decimal notation.
pub fn append_decimal(out: &mut String, n: usize)
    ensures
        final(out)@ == old(out)@ + decimal(n as nat),
    decreases n,
{
    if n >= 10 {
        append_decimal(out, n / 10);
    }
    let last: usize = n % 10;
    let text = match last {
        0 => "0",
        1 => "1",
        2 => "2",
        3 => "3",
        4 => "4",
        5 => "5",
        6 => "6",
        7 => "7",
        8 => "8",
        _ => "9",
    };
    out.append(text);
    assert(text@ == digit(last as nat));
    if n >= 10 {
        assert(out@ =~= old(out)@ + (decimal((n / 10) as nat) + digit(last as nat)));
    }
}

/// The texts in a row, with `separator` between each two.
pub open spec fn joined(texts: Seq<Seq<char>>, separator: Seq<char>) -> Seq<char>
    decreases texts.len(),
{
    if texts.len() == 0 {
        Seq::empty()
    } else if texts.len() == 1 {
        texts[0]
    } else {
        joined(texts.drop_last(), separator) + separator + texts.last()
    }
}

/// The texts of a list of strings.
pub open spec fn texts_of(strings: Seq<String>) -> Seq<Seq<char>> {
    strings.map_values(|s: String| s@)
}

/// Joins strings with `separator` between each two.
pub fn join(strings: &Vec<String>, separator: &str) -> (result: String)
    ensures
        result@ == joined(texts_of(strings@), separator@),
{
    let mut result = String::new();
    let ghost texts = texts_of(strings@);
    let mut i: usize = 0;
    while i < strings.len()
        invariant
            i <= strings@.len(),
            texts == texts_of(strings@),
            result@ == joined(texts.take(i as int), separator@),
        decreases strings@.len() - i,
    {
        let ghost next = texts.take(i + 1);
        assert(next.drop_last() =~= texts.take(i as int));
        if i > 0 {
            result.append(separator);
        }
        result.append(strings[i].as_str());
        assert(result@ =~= joined(next, separator@));
        i += 1;
    }
    assert(texts.take(i as int) =~= texts);
    result
}

/// The text that bytes read as, with U+FFFD in place of what is not UTF-8: what
/// `String::from_utf8_lossy` makes of them.
pub uninterp spec fn utf8_lossy(bytes: Seq<u8>) -> Seq<char>;

/// `String::from_utf8_lossy`. The result depends on the bytes alone, and is the
/// text that they encode where they are UTF-8.
#[verifier::external_body]
pub(crate) fn lossy_text(bytes: &[u8]) -> (result: String)
    ensures
        result@ == utf8_lossy(bytes@),
        valid_utf8(bytes@) ==> result@ == decode_utf8(bytes@),
{
    String::from_utf8_lossy(bytes).into_owned()
}

} // verus!
