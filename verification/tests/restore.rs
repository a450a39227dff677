use hurry::cargo::cache::restore::{filter_units_with_incomplete_deps, SavedUnits, UnitSet};
use hurry::cargo::cache::SavedUnit;
use hurry::cargo::fingerprint::Fingerprint;
use hurry::cargo::rustc::RustcTarget;
use hurry::cargo::units::library_crate::LibraryCrateUnitPlan;
use hurry::cargo::workspace::{UnitHash, UnitPlan, UnitPlanInfo};
use hurry::hash::Key;
use hurry::path::AbsFilePath;

fn hash(text: &str) -> UnitHash {
    UnitHash { text: String::from(text) }
}

fn make_unit_plan(unit_hash: &str, package: &str, deps: Vec<&str>) -> UnitPlan {
    UnitPlan::LibraryCrate(LibraryCrateUnitPlan {
        info: UnitPlanInfo {
            unit_hash: hash(unit_hash),
            package_name: String::from(package),
            package_version: String::from("1.0.0"),
            crate_name: String::from(package),
            target_arch: RustcTarget::ImplicitHost,
            deps: vec![],
            dep_hashes: deps.into_iter().map(hash).collect(),
        },
        src_path: AbsFilePath::new("/test/src/lib.rs").unwrap(),
        outputs: vec![],
    })
}

fn make_saved_unit() -> SavedUnit {
    SavedUnit::LibraryCrate {
        fingerprint: Fingerprint::new(),
        output_files: vec![],
        dep_info_file: Key::from_buffer(&b"dep-info".to_vec()),
        encoded_dep_info_file: Key::from_buffer(&b"encoded-dep-info".to_vec()),
    }
}

fn make_response(hashes: &[&str]) -> SavedUnits {
    let mut saved = SavedUnits::new();
    for h in hashes {
        saved.insert(&hash(h), make_saved_unit());
    }
    saved
}

fn make_skip(hashes: &[&str]) -> UnitSet {
    let mut skip = UnitSet::new();
    for h in hashes {
        skip.insert(&hash(h));
    }
    skip
}

fn assert_filtered(filtered: &UnitSet, expected: &[&str]) {
    assert_eq!(filtered.len(), expected.len());
    for h in expected {
        assert!(filtered.contains(&hash(h)), "{h} should be filtered");
    }
}

#[test]
fn empty_units() {
    let units = vec![];
    let (filtered, count) =
        filter_units_with_incomplete_deps(&units, &make_response(&[]), &make_skip(&[]));
    assert_filtered(&filtered, &[]);
    assert_eq!(count, 0);
}

#[test]
fn unit_with_no_deps_passes() {
    let units = vec![make_unit_plan("A", "pkg-a", vec![])];
    let (filtered, count) =
        filter_units_with_incomplete_deps(&units, &make_response(&["A"]), &make_skip(&[]));
    assert_filtered(&filtered, &[]);
    assert_eq!(count, 0);
}

#[test]
fn unit_not_in_cache_not_counted() {
    let units = vec![make_unit_plan("A", "pkg-a", vec![])];
    let (filtered, count) =
        filter_units_with_incomplete_deps(&units, &make_response(&[]), &make_skip(&[]));
    assert_filtered(&filtered, &[]);
    assert_eq!(count, 0);
}

#[test]
fn unit_with_dep_on_disk_passes() {
    let units = vec![
        make_unit_plan("B", "pkg-b", vec![]),
        make_unit_plan("A", "pkg-a", vec!["B"]),
    ];
    let (filtered, count) =
        filter_units_with_incomplete_deps(&units, &make_response(&["A"]), &make_skip(&["B"]));
    assert_filtered(&filtered, &[]);
    assert_eq!(count, 0);
}

#[test]
fn unit_with_dep_in_cache_passes() {
    let units = vec![
        make_unit_plan("B", "pkg-b", vec![]),
        make_unit_plan("A", "pkg-a", vec!["B"]),
    ];
    let (filtered, count) =
        filter_units_with_incomplete_deps(&units, &make_response(&["B", "A"]), &make_skip(&[]));
    assert_filtered(&filtered, &[]);
    assert_eq!(count, 0);
}

#[test]
fn unit_with_missing_dep_filtered() {
    let units = vec![
        make_unit_plan("B", "pkg-b", vec![]),
        make_unit_plan("A", "pkg-a", vec!["B"]),
    ];
    let (filtered, count) =
        filter_units_with_incomplete_deps(&units, &make_response(&["A"]), &make_skip(&[]));
    assert_filtered(&filtered, &["A"]);
    assert_eq!(count, 1);
}

#[test]
fn cascading_filter() {
    let units = vec![
        make_unit_plan("C", "pkg-c", vec![]),
        make_unit_plan("B", "pkg-b", vec!["C"]),
        make_unit_plan("A", "pkg-a", vec!["B"]),
    ];
    let (filtered, count) =
        filter_units_with_incomplete_deps(&units, &make_response(&["A", "B"]), &make_skip(&[]));
    assert_filtered(&filtered, &["B", "A"]);
    assert_eq!(count, 2);
}

#[test]
fn partial_graph_with_some_deps_available() {
    let units = vec![
        make_unit_plan("B", "pkg-b", vec![]),
        make_unit_plan("D", "pkg-d", vec![]),
        make_unit_plan("A", "pkg-a", vec!["B"]),
        make_unit_plan("C", "pkg-c", vec!["D"]),
        make_unit_plan("E", "pkg-e", vec!["C"]),
    ];
    let (filtered, count) = filter_units_with_incomplete_deps(
        &units,
        &make_response(&["A", "B", "C", "E"]),
        &make_skip(&[]),
    );
    assert_filtered(&filtered, &["C", "E"]);
    assert_eq!(count, 2);
}
