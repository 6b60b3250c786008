//! Digests of text.
//!
//! The cache compares contents by digests. It does not choose how they are
//! computed: whatever needs one takes the function that computes it.
use vstd::prelude::*;

verus! {

/// `hash` accepts every text.
pub open spec fn hashes_any_text<H: Fn(&str) -> String>(hash: H) -> bool {
    forall|text: &str| call_requires(hash, (text,))
}

/// `digest` is what `hash` may return for `text`.
pub open spec fn hashes_to<H: Fn(&str) -> String>(
    hash: H,
    text: Seq<char>,
    digest: Seq<char>,
) -> bool {
    exists|arg: &str, out: String| #[trigger]
        call_ensures(hash, (arg,), out) && arg@ == text && out@ == digest
}

/// `hash` returns `digest(text)` for every `text`.
pub open spec fn computes<H: Fn(&str) -> String>(
    hash: H,
    digest: spec_fn(Seq<char>) -> Seq<char>,
) -> bool {
    forall|arg: &str, out: String| #[trigger]
        call_ensures(hash, (arg,), out) ==> out@ == digest(arg@)
}

/// What `hash` may return for a text, where it computes `digest`, is the digest.
pub proof fn hashes_to_digest<H: Fn(&str) -> String>(
    hash: H,
    digest: spec_fn(Seq<char>) -> Seq<char>,
    text: Seq<char>,
    out: Seq<char>,
)
    requires
        computes(hash, digest),
        hashes_to(hash, text, out),
    ensures
        out == digest(text),
{
}

/// The digest of `text`.
pub fn digest_of<H: Fn(&str) -> String>(text: &str, hash: &H) -> (result: String)
    requires
        hashes_any_text(*hash),
    ensures
        hashes_to(*hash, text@, result@),
{
    hash(text)
}

/// The text of a digest, if there is one.
pub open spec fn digest_text(digest: Option<String>) -> Option<Seq<char>> {
    match digest {
        Some(text) => Some(text@),
        None => None,
    }
}

/// Whether two digests are equal, or neither is there.
pub fn same_digest(a: &Option<String>, b: &Option<String>) -> (result: bool)
    ensures
        result == (digest_text(*a) == digest_text(*b)),
{
    match (a, b) {
        (Some(x), Some(y)) => *x == *y,
        (None, None) => true,
        _ => false,
    }
}

/// A copy of a digest, if there is one.
pub fn copy_digest(digest: &Option<String>) -> (result: Option<String>)
    ensures
        digest_text(result) == digest_text(*digest),
{
    match digest {
        Some(text) => Some(text.clone()),
        None => None,
    }
}

} // verus!
