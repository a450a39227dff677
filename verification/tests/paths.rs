use std::path::Path;

use hurry::cargo::path::{Existing, QualifiedPath};
use hurry::cargo::profile::Profile;
use hurry::cargo::rustc::{RustcTarget, RustcTargetPlatform};
use hurry::cargo::workspace::Workspace;
use hurry::path::{self, AbsDirPath, AbsFilePath, PathError, RelDirPath, RelFilePath};

fn workspace() -> Workspace {
    Workspace {
        root: AbsDirPath::new("/work").unwrap(),
        build_dir: AbsDirPath::new("/work/target").unwrap(),
        cargo_home: AbsDirPath::new("/home/.cargo").unwrap(),
        profile: Profile::debug(),
        target_arch: RustcTarget::ImplicitHost,
        host_arch: RustcTargetPlatform::new("x86_64-unknown-linux-gnu").unwrap(),
    }
}

const PATHS: [&str; 18] = [
    "/", "/a", "/a/", "//a", "/a/b", "/a//b", "/a/./b", "/a/../b", "/a/.", "/a/..", "/./a", "/.",
    "/a/b/c", "/ab", "/a/bc", "/a.b/c", "/..", "/.../a",
];

#[test]
fn paths_are_those_of_the_standard_library() {
    for p in PATHS {
        let std_path = Path::new(p);
        let abs = AbsFilePath::new(p).unwrap();
        assert_eq!(
            abs.file_name(),
            std_path.file_name().map(|n| String::from(n.to_str().unwrap())),
            "{p}"
        );
        let parent = abs.parent();
        assert_eq!(parent.as_ref().map(|d| Path::new(d.as_str())), std_path.parent(), "{p}");
        for q in PATHS {
            let base = AbsDirPath::new(q).unwrap();
            let got = abs.relative_to(&base);
            let want = std_path.strip_prefix(q).ok();
            assert_eq!(got.is_some(), want.is_some(), "{p} {q}");
            if let (Some(got), Some(want)) = (got, want) {
                assert_eq!(Path::new(got.as_str()), want, "{p} {q}");
            }
            assert_eq!(path::same_components(p, q), std_path == Path::new(q), "{p} {q}");
        }
    }
}

#[test]
fn paths_are_joined() {
    for base in ["/", "/a", "/a/"] {
        for rel in ["", "b", "b/c", "./b", "../b"] {
            let joined = AbsDirPath::new(base).unwrap().join_file(&RelFilePath::new(rel).unwrap());
            assert_eq!(Path::new(joined.as_str()), Path::new(base).join(rel));
        }
    }
    let dir = AbsDirPath::new("/a").unwrap();
    assert_eq!(dir.try_join_file("b").unwrap().as_str(), "/a/b");
    assert_eq!(dir.try_join_dir("/b").unwrap_err(), PathError::NotRelative);
    assert_eq!(AbsDirPath::new("a").unwrap_err(), PathError::NotAbsolute);
    assert_eq!(RelDirPath::new("/a").unwrap_err(), PathError::NotRelative);
    let rel = RelDirPath::new("deps").unwrap();
    assert_eq!(rel.try_join_file("x.d").unwrap().as_str(), "deps/x.d");
    assert_eq!(rel.try_join_dir("/x").unwrap_err(), PathError::NotRelative);
    assert_eq!(
        path::component_list("/a//b/./../c"),
        Path::new("/a//b/./../c")
            .components()
            .skip(1)
            .map(|c| c.as_os_str().to_str().unwrap().to_string())
            .collect::<Vec<String>>()
    );
}

#[test]
fn paths_know_their_root() {
    let ws = workspace();
    let target = RustcTarget::ImplicitHost;
    let parse = |p: &str| QualifiedPath::parse(&ws, &target, &Existing::new(), p);
    assert!(matches!(
        parse("/work/target/debug/deps/a.d"),
        QualifiedPath::RelativeTargetProfile(rel) if rel.as_str() == "deps/a.d"
    ));
    assert!(matches!(
        parse("/home/.cargo/registry/lib.rs"),
        QualifiedPath::RelativeCargoHome(rel) if rel.as_str() == "registry/lib.rs"
    ));
    assert!(matches!(
        parse("/usr/include/a.h"),
        QualifiedPath::Absolute(abs) if abs.as_str() == "/usr/include/a.h"
    ));
    assert!(matches!(parse("src/a.c"), QualifiedPath::Rootless(rel) if rel.as_str() == "src/a.c"));
    assert!(matches!(parse("/work/target/debugger"), QualifiedPath::Absolute(_)));
}

#[test]
fn paths_round_trip_and_relocate() {
    let here = workspace();
    let mut there = workspace();
    there.build_dir = AbsDirPath::new("/ci/target").unwrap();
    there.cargo_home = AbsDirPath::new("/ci/cargo").unwrap();
    let target = RustcTarget::Specified(RustcTargetPlatform::new("aarch64-apple-darwin").unwrap());
    for (p, moved) in [
        (
            "/work/target/aarch64-apple-darwin/debug/deps/a.d",
            "/ci/target/aarch64-apple-darwin/debug/deps/a.d",
        ),
        ("/home/.cargo/registry/lib.rs", "/ci/cargo/registry/lib.rs"),
        ("/usr/include/a.h", "/usr/include/a.h"),
        ("src/a.c", "src/a.c"),
    ] {
        let q = QualifiedPath::parse(&here, &target, &Existing::new(), p);
        assert_eq!(q.reconstruct_string(&here, &target), p);
        assert_eq!(q.reconstruct_string(&there, &target), moved);
        let again = QualifiedPath::parse(&there, &target, &Existing::new(), moved);
        assert_eq!(format!("{again:?}"), format!("{q:?}"));
    }
}

#[test]
fn existing_files_are_asked_for() {
    let ws = workspace();
    let target = RustcTarget::ImplicitHost;
    let candidates = QualifiedPath::candidates(&ws, &target, "a.h");
    let texts: Vec<&str> = candidates.iter().map(|c| c.as_str()).collect();
    assert_eq!(texts, vec!["/work/target/debug/a.h", "/home/.cargo/a.h"]);
    assert!(QualifiedPath::candidates(&ws, &target, "/a.h").is_empty());
    let mut existing = Existing::new();
    existing.insert(&candidates[1]);
    assert!(matches!(
        QualifiedPath::parse(&ws, &target, &existing, "a.h"),
        QualifiedPath::RelativeCargoHome(_)
    ));
    existing.insert(&candidates[0]);
    assert!(existing.contains(&candidates[0]));
    assert!(matches!(
        QualifiedPath::parse(&ws, &target, &existing, "a.h"),
        QualifiedPath::RelativeTargetProfile(_)
    ));
}

#[test]
fn directories_of_profiles() {
    let ws = workspace();
    assert_eq!(ws.arch_profile_dir(&RustcTarget::ImplicitHost).as_str(), "/work/target/debug");
    let target = RustcTarget::Specified(RustcTargetPlatform::new("wasm32-wasip1").unwrap());
    assert_eq!(ws.arch_profile_dir(&target).as_str(), "/work/target/wasm32-wasip1/debug");
    assert!(Profile::new("/x").is_err());
    assert!(RustcTargetPlatform::new("/x").is_err());
    assert!(RustcTargetPlatform::new("x86_64-unknown-linux-gnu").unwrap().uses_glibc());
    assert!(RustcTargetPlatform::new("arm-unknown-linux-gnueabihf").unwrap().uses_glibc());
    assert!(RustcTargetPlatform::new("x86_64-unknown-linux-gnux32").unwrap().uses_glibc());
    assert!(!RustcTargetPlatform::new("x86_64-unknown-linux-musl").unwrap().uses_glibc());
    assert!(!RustcTargetPlatform::new("x86_64-pc-windows-gnu").unwrap().uses_glibc());
}
