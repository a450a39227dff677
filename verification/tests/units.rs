use std::collections::HashMap;

use hurry::cargo::cache::restore::{files_to_restore, RestoredFileKind};
use hurry::cargo::cache::save::{prepare_unit, UnitContents};
use hurry::cargo::dep_info::DepInfoError;
use hurry::cargo::fingerprint::{util_hash_u64, DepFingerprint, Fingerprint, RewriteError};
use hurry::cargo::path::Existing;
use hurry::cargo::profile::Profile;
use hurry::cargo::rustc::{RustcTarget, RustcTargetPlatform};
use hurry::cargo::units::build_script_compilation::{
    BuildScriptCompilationUnitPlan, BuildScriptCompiledFiles,
};
use hurry::cargo::units::build_script_execution::{
    BuildScriptExecutionUnitPlan, BuildScriptOutputFiles,
};
use hurry::cargo::units::library_crate::{FileContents, LibraryCrateUnitPlan, LibraryFiles};
use hurry::cargo::units::{ReadError, UnitFileError, UnitRestoreError, UnitWrite};
use hurry::cargo::workspace::{UnitHash, UnitPlan, UnitPlanInfo, Workspace};
use hurry::path::{AbsDirPath, AbsFilePath};

fn workspace(root: &str, cargo_home: &str) -> Workspace {
    Workspace {
        root: AbsDirPath::new(root).unwrap(),
        build_dir: AbsDirPath::new(&format!("{root}/target")).unwrap(),
        cargo_home: AbsDirPath::new(cargo_home).unwrap(),
        profile: Profile::debug(),
        target_arch: RustcTarget::ImplicitHost,
        host_arch: RustcTargetPlatform::new("x86_64-unknown-linux-gnu").unwrap(),
    }
}

fn info(package: &str, name: &str, target: RustcTarget) -> UnitPlanInfo {
    UnitPlanInfo {
        unit_hash: UnitHash { text: String::from("1a2b") },
        package_name: String::from(package),
        package_version: String::from("1.0.0"),
        crate_name: String::from(name),
        target_arch: target,
        deps: vec![],
        dep_hashes: vec![],
    }
}

fn abs(p: &str) -> AbsFilePath {
    AbsFilePath::new(p).unwrap()
}

fn library() -> LibraryCrateUnitPlan {
    LibraryCrateUnitPlan {
        info: info("my-lib", "my_lib", RustcTarget::ImplicitHost),
        src_path: abs("/here/cargo/my-lib/src/lib.rs"),
        outputs: vec![
            abs("/here/target/debug/deps/libmy_lib-1a2b.rlib"),
            abs("/here/target/debug/deps/libmy_lib-1a2b.rmeta"),
        ],
    }
}

fn compilation() -> BuildScriptCompilationUnitPlan {
    BuildScriptCompilationUnitPlan {
        info: info("my-lib", "build_script_build", RustcTarget::ImplicitHost),
        src_path: abs("/here/cargo/my-lib/build.rs"),
    }
}

fn execution() -> BuildScriptExecutionUnitPlan {
    let platform = RustcTargetPlatform::new("wasm32-wasip1").unwrap();
    BuildScriptExecutionUnitPlan {
        info: info("my-lib", "build_script_build", RustcTarget::Specified(platform)),
        build_script_program_name: String::from("build-script-build"),
    }
}

fn fingerprint(path: u64) -> Fingerprint {
    let mut f = Fingerprint::new();
    f.rustc = 7;
    f.path = path;
    f
}

fn paths(writes: &[UnitWrite]) -> Vec<String> {
    writes
        .iter()
        .map(|w| match w {
            UnitWrite::File { path, .. } => format!("file {}", path.as_str()),
            UnitWrite::Text { path, .. } => format!("text {}", path.as_str()),
            UnitWrite::Link { file, link } => format!("link {} {}", file.as_str(), link.as_str()),
            UnitWrite::Json { path, .. } => format!("json {}", path.as_str()),
        })
        .collect()
}

#[test]
fn files_of_libraries() {
    let plan = library();
    assert_eq!(plan.dep_info_file().unwrap().as_str(), "deps/my-lib-1a2b.d");
    assert_eq!(
        plan.encoded_dep_info_file().unwrap().as_str(),
        ".fingerprint/my-lib-1a2b/dep-lib-my_lib"
    );
    assert_eq!(
        plan.fingerprint_json_file().unwrap().as_str(),
        ".fingerprint/my-lib-1a2b/lib-my_lib.json"
    );
    assert_eq!(
        plan.fingerprint_hash_file().unwrap().as_str(),
        ".fingerprint/my-lib-1a2b/lib-my_lib"
    );
    assert_eq!(plan.info.deps_dir().unwrap().as_str(), "deps");
}

#[test]
fn files_of_compiled_build_scripts() {
    let plan = compilation();
    assert_eq!(plan.entrypoint_module_name().unwrap(), "build");
    assert_eq!(
        plan.program_file().unwrap().as_str(),
        "build/my-lib-1a2b/build_script_build-1a2b"
    );
    assert_eq!(
        plan.linked_program_file().unwrap().as_str(),
        "build/my-lib-1a2b/build-script-build"
    );
    assert_eq!(
        plan.dep_info_file().unwrap().as_str(),
        "build/my-lib-1a2b/build_script_build-1a2b.d"
    );
    assert_eq!(
        plan.encoded_dep_info_file().unwrap().as_str(),
        ".fingerprint/my-lib-1a2b/dep-build-script-build-script-build"
    );
    assert_eq!(
        plan.fingerprint_hash_file().unwrap().as_str(),
        ".fingerprint/my-lib-1a2b/build-script-build-script-build"
    );
    assert_eq!(
        plan.fingerprint_json_file().unwrap().as_str(),
        ".fingerprint/my-lib-1a2b/build-script-build-script-build.json"
    );
    let mut odd = compilation();
    odd.src_path = abs("/x/build.c");
    assert_eq!(odd.program_file().unwrap_err(), UnitFileError::NoRustExtension);
    odd.src_path = abs("/");
    assert_eq!(odd.program_file().unwrap_err(), UnitFileError::NoSourceName);
}

#[test]
fn files_of_run_build_scripts() {
    let plan = execution();
    assert_eq!(plan.out_dir().unwrap().as_str(), "build/my-lib-1a2b/out");
    assert_eq!(plan.stdout_file().unwrap().as_str(), "build/my-lib-1a2b/output");
    assert_eq!(plan.stderr_file().unwrap().as_str(), "build/my-lib-1a2b/stderr");
    assert_eq!(plan.root_output_file().unwrap().as_str(), "build/my-lib-1a2b/root-output");
    assert_eq!(
        plan.fingerprint_hash_file().unwrap().as_str(),
        ".fingerprint/my-lib-1a2b/run-build-script-build-script-build"
    );
    assert_eq!(
        plan.fingerprint_json_file().unwrap().as_str(),
        ".fingerprint/my-lib-1a2b/run-build-script-build-script-build.json"
    );
    let mut odd = execution();
    odd.info.package_name = String::from("/x");
    assert_eq!(odd.out_dir().unwrap_err(), UnitFileError::NotRelative);
}

#[test]
fn files_that_are_touched() {
    let ws = workspace("/here", "/here/cargo");
    let texts = |unit: UnitPlan| {
        let plan = unit.touch(&ws).unwrap();
        let files: Vec<String> = plan.files.iter().map(|f| String::from(f.as_str())).collect();
        (files, plan.walk.map(|d| String::from(d.as_str())))
    };
    let (files, walk) = texts(UnitPlan::LibraryCrate(library()));
    assert!(files.contains(&String::from("/here/target/debug/deps/libmy_lib-1a2b.rlib")));
    assert!(files.contains(&String::from("/here/target/debug/deps/my-lib-1a2b.d")));
    assert!(files.contains(&String::from(
        "/here/target/debug/.fingerprint/my-lib-1a2b/lib-my_lib.json"
    )));
    assert_eq!(walk, None);
    let (files, _) = texts(UnitPlan::BuildScriptCompilation(compilation()));
    assert!(files
        .contains(&String::from("/here/target/debug/build/my-lib-1a2b/build_script_build-1a2b")));
    let (_, walk) = texts(UnitPlan::BuildScriptExecution(execution()));
    assert_eq!(
        walk,
        Some(String::from("/here/target/wasm32-wasip1/debug/build/my-lib-1a2b/out"))
    );
}

#[test]
fn kinds_of_units() {
    let unit = UnitPlan::LibraryCrate(library());
    assert_eq!(unit.info().package_name, "my-lib");
    assert_eq!(unit.src_path().unwrap().as_str(), "/here/cargo/my-lib/src/lib.rs");
    assert_eq!(
        unit.fingerprint_json_file().unwrap().as_str(),
        format!("{}.json", unit.fingerprint_hash_file().unwrap().as_str())
    );
    assert!(UnitPlan::BuildScriptExecution(execution()).src_path().is_none());
    assert_eq!(
        hurry::cargo::cache::restore::unit_type_name(&unit),
        "LibraryCrate"
    );
}

#[test]
fn libraries_move_to_another_machine() {
    let here = workspace("/here", "/here/cargo");
    let there = workspace("/there", "/there/cargo");
    let mut f = fingerprint(util_hash_u64(&library().src_path));
    let hash_file = f.fingerprint_hash();
    let file = |b: u8| FileContents { contents: vec![b], executable: b == 2 };
    let files = library()
        .read(
            &here,
            vec![file(1), file(2)],
            "/here/target/debug/deps/my_lib-1a2b.d: /here/cargo/my-lib/src/lib.rs\n",
            &Existing::new(),
            vec![9],
            f,
            &hash_file,
        )
        .unwrap();
    let mut plan = library();
    plan.src_path = abs("/there/cargo/my-lib/src/lib.rs");
    let mut known = HashMap::new();
    let writes = files.restore(&there, &mut known, &plan).unwrap();
    assert_eq!(
        paths(&writes),
        vec![
            "file /there/target/debug/deps/libmy_lib-1a2b.rlib",
            "file /there/target/debug/deps/libmy_lib-1a2b.rmeta",
            "file /there/target/debug/.fingerprint/my-lib-1a2b/dep-lib-my_lib",
            "text /there/target/debug/deps/my-lib-1a2b.d",
            "text /there/target/debug/.fingerprint/my-lib-1a2b/lib-my_lib",
            "json /there/target/debug/.fingerprint/my-lib-1a2b/lib-my_lib.json",
        ]
    );
    let want = fingerprint(util_hash_u64(&plan.src_path)).fingerprint_hash();
    for write in writes {
        match write {
            UnitWrite::File { path, contents, executable } => {
                if path.as_str().ends_with(".rmeta") {
                    assert_eq!((contents, executable), (vec![2], Some(true)));
                }
            }
            UnitWrite::Text { path, text } => {
                if path.as_str().ends_with(".d") {
                    assert_eq!(
                        text,
                        "/there/target/debug/deps/my_lib-1a2b.d: /there/cargo/my-lib/src/lib.rs"
                    );
                } else {
                    assert_eq!(text, want);
                }
            }
            UnitWrite::Json { mut fingerprint, .. } => {
                assert_eq!(fingerprint.fingerprint_hash(), want)
            }
            UnitWrite::Link { .. } => panic!("a library has no links"),
        }
    }
    assert_eq!(known.len(), 1);
}

#[test]
fn compiled_build_scripts_move() {
    let here = workspace("/here", "/here/cargo");
    let there = workspace("/there", "/there/cargo");
    let mut f = fingerprint(5);
    let hash_file = f.fingerprint_hash();
    let files = compilation()
        .read(&here, vec![1], "a.d: /here/cargo/x.rs\n", &Existing::new(), vec![9], f, &hash_file)
        .unwrap();
    let writes = files.restore(&there, &mut HashMap::new(), &compilation()).unwrap();
    assert_eq!(
        paths(&writes),
        vec![
            "file /there/target/debug/build/my-lib-1a2b/build_script_build-1a2b",
            "link /there/target/debug/build/my-lib-1a2b/build_script_build-1a2b /there/target/debug/build/my-lib-1a2b/build-script-build",
            "file /there/target/debug/.fingerprint/my-lib-1a2b/dep-build-script-build-script-build",
            "text /there/target/debug/build/my-lib-1a2b/build_script_build-1a2b.d",
            "text /there/target/debug/.fingerprint/my-lib-1a2b/build-script-build-script-build",
            "json /there/target/debug/.fingerprint/my-lib-1a2b/build-script-build-script-build.json",
        ]
    );
    assert!(matches!(
        &writes[3],
        UnitWrite::Text { text, .. } if text == "a.d: /there/cargo/x.rs"
    ));
}

#[test]
fn run_build_scripts_move() {
    let here = workspace("/here", "/here/cargo");
    let there = workspace("/there", "/there/cargo");
    let mut f = fingerprint(0);
    let hash_file = f.fingerprint_hash();
    let out = "/here/target/wasm32-wasip1/debug/build/my-lib-1a2b/out/gen.rs";
    let files = execution()
        .read(
            &here,
            &vec![abs(out)],
            vec![FileContents { contents: vec![4], executable: false }],
            "cargo:rerun-if-changed=/here/cargo/my-lib/a.c\n",
            &Existing::new(),
            b"warned".to_vec(),
            f,
            &hash_file,
        )
        .unwrap();
    let writes = files.restore(&there, &mut HashMap::new(), &execution()).unwrap();
    let dir = "/there/target/wasm32-wasip1/debug";
    assert_eq!(
        paths(&writes),
        vec![
            format!("file {dir}/build/my-lib-1a2b/out/gen.rs"),
            format!("text {dir}/build/my-lib-1a2b/output"),
            format!("file {dir}/build/my-lib-1a2b/stderr"),
            format!("text {dir}/build/my-lib-1a2b/root-output"),
            format!("text {dir}/.fingerprint/my-lib-1a2b/run-build-script-build-script-build"),
            format!("json {dir}/.fingerprint/my-lib-1a2b/run-build-script-build-script-build.json"),
        ]
    );
    assert!(matches!(
        &writes[1],
        UnitWrite::Text { text, .. } if text == "cargo:rerun-if-changed=/there/cargo/my-lib/a.c"
    ));
    assert!(matches!(
        &writes[3],
        UnitWrite::Text { text, .. } if *text == format!("{dir}/build/my-lib-1a2b/out")
    ));
}

#[test]
fn what_cannot_be_read() {
    let ws = workspace("/here", "/here/cargo");
    let mut f = fingerprint(5);
    let hash = f.fingerprint_hash();
    let error = compilation()
        .read(&ws, vec![], "a: b\nbad", &Existing::new(), vec![], f.clone(), &hash)
        .unwrap_err();
    assert_eq!(error, ReadError::DepInfo(DepInfoError { line: 1 }));
    let error = compilation()
        .read(&ws, vec![], "a: b", &Existing::new(), vec![], f.clone(), "00")
        .unwrap_err();
    assert_eq!(error, ReadError::FingerprintHashMismatch);
    let error = execution()
        .read(&ws, &vec![], vec![], "", &Existing::new(), vec![], f.clone(), "00")
        .unwrap_err();
    assert_eq!(error, ReadError::FingerprintHashMismatch);
    let mut plan = library();
    plan.outputs = vec![];
    let error = plan
        .read(&ws, vec![], "", &Existing::new(), vec![], f, "00")
        .unwrap_err();
    assert_eq!(error, ReadError::FingerprintHashMismatch);
}

#[test]
fn what_cannot_be_restored() {
    let ws = workspace("/here", "/here/cargo");
    let read = |mut f: Fingerprint| {
        let hash = f.fingerprint_hash();
        let mut plan = library();
        plan.outputs = vec![];
        plan.read(&ws, vec![], "", &Existing::new(), vec![], f, &hash).unwrap()
    };
    let error = read(fingerprint(0)).restore(&ws, &mut HashMap::new(), &library()).unwrap_err();
    assert_eq!(error, UnitRestoreError::Rewrite(RewriteError::UnsetPath));
    let mut f = fingerprint(1);
    f.deps = vec![DepFingerprint::from_parts(1, String::from("d"), false, 3)];
    let error = read(f).restore(&ws, &mut HashMap::new(), &library()).unwrap_err();
    assert_eq!(error, UnitRestoreError::Rewrite(RewriteError::UnknownDependency));
    let mut odd = library();
    odd.info.package_name = String::from("/x");
    let error = read(fingerprint(1)).restore(&ws, &mut HashMap::new(), &odd).unwrap_err();
    assert_eq!(error, UnitRestoreError::UnitFile(UnitFileError::NotRelative));
}

#[test]
fn files_go_back_where_they_were() {
    let ws = workspace("/here", "/here/cargo");
    let mut f = fingerprint(util_hash_u64(&library().src_path));
    let hash_file = f.fingerprint_hash();
    let files = library()
        .read(
            &ws,
            vec![
                FileContents { contents: vec![1], executable: true },
                FileContents { contents: vec![2], executable: false },
            ],
            "",
            &Existing::new(),
            vec![],
            f,
            &hash_file,
        )
        .unwrap();
    let writes = files.restore(&ws, &mut HashMap::new(), &library()).unwrap();
    for (write, (output, byte)) in writes.iter().zip(library().outputs.iter().zip([1u8, 2])) {
        match write {
            UnitWrite::File { path, contents, executable } => {
                assert_eq!(path.as_str(), output.as_str());
                assert_eq!(contents, &vec![byte]);
                assert_eq!(*executable, Some(byte == 1));
            }
            _ => panic!("outputs are files"),
        }
    }
    assert!(matches!(&writes[4], UnitWrite::Text { text, .. } if *text == hash_file));
}

#[test]
fn fingerprints_are_put_back() {
    let ws = workspace("/here", "/here/cargo");
    let mut known = HashMap::new();
    let mut saved = fingerprint(1);
    let saved_hash = saved.hash_u64();
    let writes =
        LibraryFiles::restore_fingerprint(&ws, &mut known, saved, &library()).unwrap();
    assert_eq!(
        paths(&writes),
        vec![
            "text /here/target/debug/.fingerprint/my-lib-1a2b/lib-my_lib",
            "json /here/target/debug/.fingerprint/my-lib-1a2b/lib-my_lib.json",
        ]
    );
    assert_eq!(known[&saved_hash].path, util_hash_u64(&library().src_path));
    let error = LibraryFiles::restore_fingerprint(&ws, &mut known, fingerprint(0), &library());
    assert_eq!(error.unwrap_err(), UnitRestoreError::Rewrite(RewriteError::UnsetPath));
    assert_eq!(known.len(), 1);

    let mut f = fingerprint(0);
    f.deps = vec![DepFingerprint::from_parts(1, String::from("d"), false, saved_hash)];
    let writes =
        BuildScriptOutputFiles::restore_fingerprint(&ws, &mut known, f, &execution()).unwrap();
    match &writes[1] {
        UnitWrite::Json { fingerprint, .. } => {
            assert_eq!(fingerprint.path, 0);
            assert_eq!(
                fingerprint.deps[0].fingerprint.clone().hash_u64(),
                known[&saved_hash].clone().hash_u64()
            );
        }
        _ => panic!("the fingerprint is JSON"),
    }
    let writes = BuildScriptCompiledFiles::restore_fingerprint(
        &ws,
        &mut known,
        fingerprint(0),
        &compilation(),
    )
    .unwrap();
    match &writes[1] {
        UnitWrite::Json { fingerprint, .. } => {
            assert_eq!(fingerprint.path, util_hash_u64(&compilation().src_path))
        }
        _ => panic!("the fingerprint is JSON"),
    }
}

#[test]
fn saved_files_return_to_their_places() {
    let ws = workspace("/here", "/here/cargo");
    let mut f = fingerprint(5);
    let hash_file = f.fingerprint_hash();
    let files = library()
        .read(
            &ws,
            vec![
                FileContents { contents: vec![1], executable: true },
                FileContents { contents: vec![2], executable: false },
            ],
            "",
            &Existing::new(),
            vec![],
            f,
            &hash_file,
        )
        .unwrap();
    let (uploads, saved) = prepare_unit(UnitContents::LibraryCrate {
        fingerprint: files.fingerprint,
        output_files: files.output_files,
        dep_info_file: vec![],
        encoded_dep_info_file: files.encoded_dep_info_file,
    });
    let unit = UnitPlan::LibraryCrate(library());
    let restored = files_to_restore(&ws, &unit, &saved, 3).unwrap().files;
    assert_eq!(restored.len(), uploads.len());
    for (i, output) in library().outputs.iter().enumerate() {
        assert_eq!(restored[i].path.as_str(), output.as_str());
        assert_eq!(restored[i].kind, RestoredFileKind::Output { executable: i == 0 });
        assert!(restored[i].key.same(&uploads[i].key));
        assert_eq!(uploads[i].contents, vec![i as u8 + 1]);
    }
}
