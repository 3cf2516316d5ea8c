use std::io::Read;

use village_cli::ignore::{resolve, IgnoreRuleSet};
use village_cli::package::{build_package, RawEntry};
use village_cli::DeployError;

fn strings(v: &[&str]) -> Vec<String> {
    v.iter().map(|s| s.to_string()).collect()
}

fn file(abs: &str, content: &[u8]) -> RawEntry {
    RawEntry { abs_path: abs.to_string(), content: Some(content.to_vec()) }
}

fn dir(abs: &str) -> RawEntry {
    RawEntry { abs_path: abs.to_string(), content: None }
}

/// Decompresses and reads back an archive: each entry as its name (without
/// a trailing `/` on directories) and its content, `None` for a directory.
fn unpack(bytes: &[u8]) -> Vec<(String, Option<Vec<u8>>)> {
    let decoder = flate2::read::GzDecoder::new(bytes);
    let mut archive = tar::Archive::new(decoder);
    let mut out = Vec::new();
    for entry in archive.entries().unwrap() {
        let mut entry = entry.unwrap();
        let name = entry.path().unwrap().to_str().unwrap().to_string();
        let name = match name.strip_suffix('/') {
            Some(trimmed) => trimmed.to_string(),
            None => name,
        };
        if entry.header().entry_type().is_dir() {
            out.push((name, None));
        } else {
            let mut content = Vec::new();
            entry.read_to_end(&mut content).unwrap();
            out.push((name, Some(content)));
        }
    }
    out
}

fn empty_rules() -> IgnoreRuleSet {
    IgnoreRuleSet::from_patterns(&strings(&[])).unwrap()
}

#[test]
fn round_trip_keeps_names_and_contents() {
    let entries = vec![
        file("/proj/a.txt", b"hello"),
        dir("/proj/sub"),
        file("/proj/sub/b.bin", &[0u8, 1, 2, 255, 254]),
    ];
    let bytes = build_package("/proj", &entries, &empty_rules()).unwrap();
    let unpacked = unpack(&bytes);
    assert_eq!(
        unpacked,
        vec![
            ("a.txt".to_string(), Some(b"hello".to_vec())),
            ("sub".to_string(), None),
            ("sub/b.bin".to_string(), Some(vec![0u8, 1, 2, 255, 254])),
        ]
    );
}

#[test]
fn empty_tree_gives_valid_empty_archive() {
    let bytes = build_package("/proj", &Vec::new(), &empty_rules()).unwrap();
    assert!(!bytes.is_empty());
    assert_eq!(unpack(&bytes), Vec::new());
}

#[test]
fn excluded_entries_stay_out_negated_stay_in() {
    let rules = resolve(&strings(&["*.log", "!*keep.log"])).unwrap();
    let entries = vec![
        file("/proj/x.log", b"gone"),
        file("/proj/keep.log", b"kept"),
        file("/proj/a.txt", b"text"),
    ];
    let bytes = build_package("/proj", &entries, &rules).unwrap();
    let unpacked = unpack(&bytes);
    assert_eq!(
        unpacked,
        vec![
            ("keep.log".to_string(), Some(b"kept".to_vec())),
            ("a.txt".to_string(), Some(b"text".to_vec())),
        ]
    );
}

#[test]
fn packaging_twice_is_identical() {
    let entries = vec![
        file("/proj/a.txt", b"one"),
        dir("/proj/d"),
        file("/proj/d/two", b"two"),
    ];
    let rules = empty_rules();
    let first = build_package("/proj", &entries, &rules).unwrap();
    let second = build_package("/proj", &entries, &rules).unwrap();
    assert_eq!(first, second);
    assert_eq!(unpack(&first), unpack(&second));
}

#[test]
fn entry_outside_base_is_a_packaging_error() {
    let entries = vec![file("/elsewhere/a.txt", b"x")];
    let r = build_package("/proj", &entries, &empty_rules());
    assert!(matches!(r, Err(DeployError::PackagingIOError)));
}

#[test]
fn non_normal_relative_names_are_packaging_errors() {
    // The archive writer would silently normalize these names, so the build
    // refuses them instead of claiming an entry it did not store.
    for abs in ["/proj/a//b", "/proj/./x", "/proj/x/", "/proj/..", "/proj/a/../b"] {
        let entries = vec![file(abs, b"x")];
        let r = build_package("/proj", &entries, &empty_rules());
        assert!(matches!(r, Err(DeployError::PackagingIOError)), "{abs}");
    }
}
