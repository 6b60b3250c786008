use devenv_eval_cache::order::Comparison;
use devenv_eval_cache::path::FilePath;
use std::path::Path;

fn path(text: &str) -> FilePath {
    FilePath::from_text(text)
}

const SPELLINGS: [&str; 34] = [
    "", "/", "//", ".", "./", "/.", "/./", "..", "../", "/..", "a", "a/", "a//", "./a", "a/.", "a/./",
    "a/./b", "a//b", "a/b", "a/b/", "/a", "//a", "/a/b", "/a/b/c", "/a-b", "/a/../b", "a/..", "./.",
    "././a", ".a", "..a", "...", "/nix/store", "/nix/store/x",
];

#[test]
fn paths_compare_as_in_std() {
    for a in SPELLINGS {
        for b in SPELLINGS {
            let expected = Path::new(a).cmp(Path::new(b));
            assert_eq!(path(a).compare(&path(b)).into_std(), expected, "{a:?} and {b:?}");
            assert_eq!(path(a) == path(b), Path::new(a) == Path::new(b), "{a:?} and {b:?}");
        }
    }
}

#[test]
fn paths_start_with_as_in_std() {
    for a in SPELLINGS {
        for b in SPELLINGS {
            let expected = Path::new(a).starts_with(b);
            assert_eq!(path(a).starts_with(&path(b)), expected, "{a:?} and {b:?}");
        }
    }
}

#[test]
fn spelling_does_not_matter() {
    assert!(path("/a//b/./c/").same(&path("/a/b/c")));
    assert!(!path("./a").same(&path("a")));
    assert!(!path("/a/../b").same(&path("/b")));
}

#[test]
fn components_decide_before_bytes() {
    // The byte '-' comes before '/', but "a" is shorter than "a-b".
    assert_eq!(path("/a/b").compare(&path("/a-b")), Comparison::Less);
    assert_eq!(path("/a-b").compare(&path("/a/b")), Comparison::Greater);
    assert_eq!(path("/a/").compare(&path("/a")), Comparison::Equal);
}

#[test]
fn a_prefix_is_one_of_components() {
    assert!(path("/nix/store/abc").starts_with(&path("/nix/store")));
    assert!(!path("/nix/storex").starts_with(&path("/nix/store")));
    assert!(path("/nix/store").starts_with(&path("/nix/store/")));
    assert!(!path("nix/store").starts_with(&path("/")));
}

#[test]
fn display_replaces_what_is_not_text() {
    assert_eq!(path("/tmp/\u{e4}").display(), "/tmp/\u{e4}");
    assert_eq!(FilePath::new(vec![0x2f, 0x61, 0xff, 0x62]).display(), "/a\u{fffd}b");
    assert_eq!(FilePath::new(vec![0xe2, 0x82]).display(), "\u{fffd}");
}

#[test]
fn clones_keep_the_spelling() {
    let original = path("/a//b");
    assert_eq!(original.clone().bytes, b"/a//b".to_vec());
}
