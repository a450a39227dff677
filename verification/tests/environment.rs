use hurry::cargo::glibc::{compatible, GLIBCVersion, GLIBCVersionError};
use hurry::ci::{is_ci, matches_ci_var, CiCheckVar};
use hurry::log::WhenColor;
use hurry::vars::get;
use hurry::version::{
    changed_files, combined_hashes, compute_version, content_hash, file_hash, hex_number,
    sort_entries, GitFileStatus, StatusEntry, StatusError,
};
use std::hash::{DefaultHasher, Hasher};

fn pairs(list: &[(&str, &str)]) -> Vec<(String, String)> {
    list.iter().map(|(a, b)| (String::from(*a), String::from(*b))).collect()
}

#[test]
fn continuous_integration_is_told() {
    assert!(!is_ci(&vec![]));
    assert!(!is_ci(&pairs(&[("HOME", "/root")])));
    for value in ["true", "1"] {
        assert!(is_ci(&pairs(&[("CI", value)])), "{value}");
    }
    assert!(!is_ci(&pairs(&[("CI", "false")])));
    assert!(!is_ci(&pairs(&[("CI", "yes")])));
    assert!(is_ci(&pairs(&[("GITHUB_ACTIONS", "true")])));
    let env = pairs(&[("A", "x")]);
    assert!(matches_ci_var(&env, &CiCheckVar::Present("A")));
    assert!(!matches_ci_var(&env, &CiCheckVar::Truthy("A")));
    assert!(matches_ci_var(&env, &CiCheckVar::Equals("A", "x")));
    assert!(!matches_ci_var(&env, &CiCheckVar::Equals("A", "y")));
    assert!(!matches_ci_var(&env, &CiCheckVar::Present("B")));
}

#[test]
fn variables_are_looked_up() {
    let env = pairs(&[("A", "1"), ("B", "2")]);
    assert_eq!(get(&env, "B").unwrap(), "2");
    assert_eq!(get(&env, "C"), None);
}

#[test]
fn colors_are_chosen() {
    assert_eq!(WhenColor::Always.ansi(), Some(true));
    assert_eq!(WhenColor::Never.ansi(), Some(false));
    assert_eq!(WhenColor::Auto.ansi(), None);
}

fn glibc(major: u32, minor: u32, patch: u32) -> GLIBCVersion {
    GLIBCVersion { major, minor, patch }
}

#[test]
fn glibc_versions_are_read() {
    assert_eq!(GLIBCVersion::parse("2.35"), Ok(glibc(2, 35, 0)));
    assert_eq!(GLIBCVersion::parse("2.35.1"), Ok(glibc(2, 35, 1)));
    assert_eq!(GLIBCVersion::parse("2"), Err(GLIBCVersionError::InvalidVersion));
    assert_eq!(GLIBCVersion::parse("2.3.4.5"), Err(GLIBCVersionError::InvalidVersion));
    assert_eq!(GLIBCVersion::parse("2.x"), Err(GLIBCVersionError::InvalidNumber));
    assert_eq!(GLIBCVersion::parse(""), Err(GLIBCVersionError::InvalidNumber));
}

#[test]
fn newer_hosts_run_older_units() {
    assert!(glibc(2, 9, 0).older_than(&glibc(2, 35, 0)));
    assert!(!glibc(2, 35, 0).older_than(&glibc(2, 35, 0)));
    assert!(glibc(2, 35, 0).older_than(&glibc(2, 35, 1)));
    assert!(glibc(1, 99, 0).older_than(&glibc(2, 0, 0)));
    assert!(glibc(2, 9, 0) < glibc(2, 35, 0));
    assert!(compatible(&Some(glibc(2, 31, 0)), &Some(glibc(2, 35, 0))));
    assert!(!compatible(&Some(glibc(2, 38, 0)), &Some(glibc(2, 35, 0))));
    assert!(compatible(&None, &Some(glibc(2, 35, 0))));
    assert!(compatible(&Some(glibc(2, 38, 0)), &None));
}

#[test]
fn status_lines_are_read() {
    let e = StatusEntry::from_str(" M src/lib.rs").unwrap();
    assert_eq!((e.index, e.worktree), (GitFileStatus::Unmodified, GitFileStatus::Modified));
    assert_eq!((e.path.as_str(), e.orig_path), ("src/lib.rs", None));
    let e = StatusEntry::from_str("R  old.rs -> new.rs").unwrap();
    assert_eq!(e.index, GitFileStatus::Renamed);
    assert_eq!((e.path.as_str(), e.orig_path.as_deref()), ("new.rs", Some("old.rs")));
    let e = StatusEntry::from_str("?? a").unwrap();
    assert_eq!(e.index, GitFileStatus::Untracked);
    assert_eq!(StatusEntry::from_str("M").unwrap_err(), StatusError::TooShort);
    assert_eq!(StatusEntry::from_str("MMxa").unwrap_err(), StatusError::NoSpace);
    assert_eq!(StatusEntry::from_str("xM a").unwrap_err(), StatusError::Index('x'));
    assert_eq!(StatusEntry::from_str("My a").unwrap_err(), StatusError::Worktree('y'));
    assert_eq!(changed_files(" M b\n?? a\n").unwrap().len(), 2);
    assert_eq!(changed_files(" M b\nz").unwrap_err(), StatusError::TooShort);
}

#[test]
fn versions_do_not_depend_on_the_order_of_files() {
    let entries = changed_files("?? b\nM  a\nA  c\n").unwrap();
    let sorted = sort_entries(entries);
    let again = sort_entries(changed_files("A  c\n?? b\nM  a\n").unwrap());
    let paths = |list: &Vec<StatusEntry>| -> Vec<String> {
        list.iter().map(|e| e.path.clone()).collect()
    };
    assert_eq!(paths(&sorted), paths(&again));
    assert_eq!(combined_hashes(vec![3, 1, 2]), combined_hashes(vec![2, 3, 1]));
}

#[test]
fn hashes_of_changed_files() {
    let mut hasher = DefaultHasher::new();
    hasher.write(b"/repo/a.rs");
    hasher.write(b"fn main() {}");
    let hash = file_hash(&b"/repo/a.rs".to_vec(), &b"fn main() {}".to_vec());
    assert_eq!(hash, hasher.finish());
    assert_ne!(hash, file_hash(&b"/repo/b.rs".to_vec(), &b"fn main() {}".to_vec()));
    let mut hasher = DefaultHasher::new();
    for hash in [1u64, 2, 70000] {
        hasher.write(&hash.to_le_bytes());
    }
    assert_eq!(content_hash(vec![70000, 1, 2, 1]), hasher.finish());
    assert_eq!(content_hash(vec![2, 1, 70000]), hasher.finish());
    assert_eq!(content_hash(vec![]), DefaultHasher::new().finish());
}

#[test]
fn versions_are_written() {
    assert_eq!(hex_number(0), "0");
    assert_eq!(hex_number(0xabc), "abc");
    assert_eq!(compute_version("v1.0.0", Some(0xab)), "v1.0.0-ab");
    assert_eq!(compute_version("v1.0.0", None), "v1.0.0");
    assert_eq!(compute_version("v1.0.0", Some(0x0123456789abcdef)), "v1.0.0-1234567");
}
