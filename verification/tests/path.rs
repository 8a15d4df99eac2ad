use std::path::Path;

use cctiles::path::{components_of, is_same_path};

#[test]
fn paths_are_compared_as_std_compares_them() {
    let pieces = ["", "/", "//", ".", "..", "a", "b", "/.", "./", "/a", "a/", "a.", ".a"];
    let mut paths: Vec<String> = Vec::new();
    for first in pieces {
        for second in pieces {
            paths.push(format!("{first}{second}"));
            paths.push(format!("{first}/{second}"));
            paths.push(format!("{first}/{second}/../x"));
        }
    }
    for a in &paths {
        for b in &paths {
            assert_eq!(is_same_path(a, b), Path::new(a) == Path::new(b), "{a:?} {b:?}");
        }
    }
}

#[test]
fn slashes_and_dots_make_no_other_path() {
    assert!(is_same_path("/t/a.jsonl", "/t//a.jsonl"));
    assert!(is_same_path("/t/a.jsonl", "/t/./a.jsonl"));
    assert!(is_same_path("/t/a", "/t/a/"));
    assert!(!is_same_path("/", ""));
    assert!(!is_same_path("a", "./a"));
    assert!(!is_same_path("/t/a", "t/a"));
    assert!(!is_same_path("/t/a", "/t/b/../a"));
}

#[test]
fn components_are_what_stands_between_slashes() {
    let parts = |s: &str| -> Vec<String> {
        let chars: Vec<char> = s.chars().collect();
        components_of(&chars).iter().map(|part| part.iter().collect()).collect()
    };
    assert_eq!(parts("/t//./a/"), vec!["t", "a"]);
    assert_eq!(parts("./a/../."), vec![".", "a", ".."]);
    assert!(parts("").is_empty());
}
