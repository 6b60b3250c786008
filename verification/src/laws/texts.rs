//! What messages are put together from.
use crate::digest;
use crate::miss::CacheMissReasonView;
use crate::state::InputError;
use crate::text;
use vstd::prelude::*;

verus! {

/// A number below ten is written by one digit, and a greater one by what it has of
/// tens and then the digit for the rest.
pub proof fn numbers_are_decimal(tens: nat, rest: nat)
    requires
        rest < 10,
    ensures
        text::decimal(rest).len() == 1,
        text::decimal(rest)[0] as int == 48 + rest,
        tens > 0 ==> text::decimal((10 * tens + rest) as nat) == text::decimal(tens)
            + text::decimal(rest),
{
    reveal_strlit("0");
    reveal_strlit("1");
    reveal_strlit("2");
    reveal_strlit("3");
    reveal_strlit("4");
    reveal_strlit("5");
    reveal_strlit("6");
    reveal_strlit("7");
    reveal_strlit("8");
    reveal_strlit("9");
    if tens > 0 {
        let n = (10 * tens + rest) as nat;
        assert(n / 10 == tens && n % 10 == rest);
    }
}

/// Two lists of texts are joined by joining each and putting the separator between
/// them. One text by itself stays as it is, and none gives none.
pub proof fn texts_are_joined_by_the_separator(
    a: Seq<Seq<char>>,
    b: Seq<Seq<char>>,
    one: Seq<char>,
    separator: Seq<char>,
)
    ensures
        text::joined(Seq::empty(), separator).len() == 0,
        text::joined(seq![one], separator) == one,
        a.len() > 0 && b.len() > 0 ==> text::joined(a + b, separator) == text::joined(a, separator)
            + separator + text::joined(b, separator),
    decreases b.len(),
{
    if a.len() > 0 && b.len() > 0 {
        assert((a + b).drop_last() =~= a + b.drop_last());
        assert((a + b).last() == b.last());
        if b.len() == 1 {
            assert(a + b.drop_last() =~= a);
        } else {
            texts_are_joined_by_the_separator(a, b.drop_last(), one, separator);
        }
        assert(text::joined(a + b, separator) =~= text::joined(a, separator) + separator
            + text::joined(b, separator));
    }
}

/// What is said of one file or variable names it, and what is said of any other
/// number of them gives the number and lists them.
pub proof fn reasons_are_told_in_words(
    paths: Seq<Seq<u8>>,
    names: Seq<Seq<char>>,
    texts: Seq<Seq<char>>,
)
    requires
        texts.len() == paths.len(),
        forall|i: int| 0 <= i < paths.len() ==> #[trigger] texts[i] == text::utf8_lossy(paths[i]),
    ensures
        CacheMissReasonView::NotCached.description() == "first evaluation"@,
        CacheMissReasonView::InputsChanged.description() == "tracked inputs changed"@,
        paths.len() == 1 ==> (CacheMissReasonView::FilesModified { paths }).description()
            == text::utf8_lossy(paths[0]) + " modified"@,
        paths.len() == 1 ==> (CacheMissReasonView::FilesRemoved { paths }).description()
            == text::utf8_lossy(paths[0]) + " removed"@,
        names.len() == 1 ==> (CacheMissReasonView::EnvModified { names }).description()
            == "environment variable "@ + names[0] + " changed"@,
        names.len() == 1 ==> (CacheMissReasonView::EnvRemoved { names }).description()
            == "environment variable "@ + names[0] + " removed"@,
        paths.len() != 1 ==> (CacheMissReasonView::FilesModified { paths }).description()
            == text::decimal(paths.len()) + " files modified: "@ + text::joined(texts, ", "@),
        paths.len() != 1 ==> (CacheMissReasonView::FilesRemoved { paths }).description()
            == text::decimal(paths.len()) + " files removed: "@ + text::joined(texts, ", "@),
        names.len() != 1 ==> (CacheMissReasonView::EnvModified { names }).description()
            == text::decimal(names.len()) + " environment variables changed: "@ + text::joined(
            names,
            ", "@,
        ),
        names.len() != 1 ==> (CacheMissReasonView::EnvRemoved { names }).description()
            == text::decimal(names.len()) + " environment variables removed: "@ + text::joined(
            names,
            ", "@,
        ),
{
    reveal_strlit("");
    let listed = crate::miss::path_texts(paths);
    assert(listed =~= texts);
    if paths.len() == 1 {
        let one = text::utf8_lossy(paths[0]);
        assert(listed[0] == one);
        assert(""@ + one + " modified"@ =~= one + " modified"@);
        assert(""@ + one + " removed"@ =~= one + " removed"@);
    }
}

/// An error is told by the system's words, those of a file's digest with what failed,
/// and that of a time before the epoch by its own.
pub proof fn errors_are_told_in_words(error: String)
    ensures
        (InputError::UnreadableDirectory { error }).text() == error@,
        (InputError::NoModificationTime { error }).text() == error@,
        (InputError::UnreadableFile { error }).text() == "Failed to compute file hash: "@ + error@,
        InputError::BeforeEpoch.text() == "SystemTime before UNIX EPOCH"@,
{
}

/// A function that hashes text hashes to what it returns and to nothing else, and it
/// computes a digest if and only if that is what it returns for every text.
pub proof fn digests_are_what_is_returned<H: Fn(&str) -> String>(
    hash: H,
    digest: spec_fn(Seq<char>) -> Seq<char>,
    text: Seq<char>,
    out: Seq<char>,
)
    ensures
        digest::hashes_to(hash, text, out) <==> exists|arg: &str, result: String| #[trigger]
            call_ensures(hash, (arg,), result) && arg@ == text && result@ == out,
        digest::computes(hash, digest) <==> forall|arg: &str, result: String| #[trigger]
            call_ensures(hash, (arg,), result) ==> result@ == digest(arg@),
        digest::hashes_any_text(hash) <==> forall|arg: &str| call_requires(hash, (arg,)),
{
}

} // verus!
