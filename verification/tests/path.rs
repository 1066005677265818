use ronly::path::{same_path, split, starts_with};
use std::path::{Component, Path};

fn agrees_on(path: &str) {
    let expected: Vec<Vec<u8>> = Path::new(path)
        .components()
        .map(|c| match c {
            Component::RootDir => b"/".to_vec(),
            Component::CurDir => b".".to_vec(),
            Component::ParentDir => b"..".to_vec(),
            other => other.as_os_str().to_str().unwrap().as_bytes().to_vec(),
        })
        .collect();
    assert_eq!(split(path.as_bytes()), expected, "{}", path);
}

const PATHS: [&str; 20] = [
    "", "/", "//", ".", "./", "./a", "a/.", "a/./b", "..", "../a", "/..", "/./a", "a", "a/", "a//b",
    "/tmp", "/tmp/", "/tmp//.ronly-shims/", "/tmpfoo", "/tmp/.ronly-shims",
];

#[test]
fn components_are_those_of_the_standard_library() {
    for path in PATHS {
        agrees_on(path);
    }
}

#[test]
fn comparisons_are_those_of_the_standard_library() {
    for a in PATHS {
        for b in PATHS {
            assert_eq!(
                starts_with(a.as_bytes(), b.as_bytes()),
                Path::new(a).starts_with(b),
                "{} {}",
                a,
                b
            );
            assert_eq!(
                same_path(a.as_bytes(), b.as_bytes()),
                Path::new(a) == Path::new(b),
                "{} {}",
                a,
                b
            );
        }
    }
}

#[test]
fn a_trailing_slash_does_not_count() {
    assert!(same_path(b"/tmp/x/", b"/tmp/x"));
    assert!(!same_path(b"", b"/"));
}

#[test]
fn two_paths_within_each_other_are_the_same() {
    assert!(starts_with(b"/tmp", b"/tmp/") && starts_with(b"/tmp/", b"/tmp"));
    assert!(same_path(b"/tmp", b"/tmp/"));
    assert!(starts_with(b"/tmp/x", b"/tmp/") && !starts_with(b"/tmp/", b"/tmp/x"));
    assert!(!same_path(b"/tmp/x", b"/tmp/"));
}

#[test]
fn bytes_that_are_not_utf8_are_compared_as_they_are() {
    assert_eq!(split(b"/a\xff/b"), vec![b"/".to_vec(), b"a\xff".to_vec(), b"b".to_vec()]);
    assert!(!same_path(b"/a\xff", b"/a\xfe"));
}
