use hurry::cargo::cache::restore::{
    files_to_restore, presence_files, FileRestoreKey, RestoreError, RestoreSession, RestoreStep,
    Restored, RestoredFileKind, SavedUnits,
};
use hurry::cargo::cache::save::{
    prepare_unit, save_locally, SaveSession, SaveStep, SavedFingerprints, UnitContents,
};
use hurry::cargo::cache::transfer::{
    Batch, Batcher, NotInitialized, RestoreProgress, UnrecognizedKey, BATCH_SIZE,
};
use hurry::cargo::cache::{SavedFile, SavedUnit, StoredFile};
use hurry::cargo::fingerprint::{util_hash_u64, DepFingerprint, Fingerprint, RewriteError};
use hurry::cargo::glibc::GLIBCVersion;
use hurry::cargo::path::QualifiedPath;
use hurry::cargo::profile::Profile;
use hurry::cargo::rustc::{RustcTarget, RustcTargetPlatform};
use hurry::cargo::units::build_script_compilation::BuildScriptCompilationUnitPlan;
use hurry::cargo::units::build_script_execution::BuildScriptExecutionUnitPlan;
use hurry::cargo::units::library_crate::LibraryCrateUnitPlan;
use hurry::cargo::units::UnitFileError;
use hurry::cargo::workspace::{UnitHash, UnitPlan, UnitPlanInfo, Workspace};
use hurry::hash::Key;
use hurry::path::{AbsDirPath, AbsFilePath, RelFilePath};

fn workspace() -> Workspace {
    Workspace {
        root: AbsDirPath::new("/work").unwrap(),
        build_dir: AbsDirPath::new("/work/target").unwrap(),
        cargo_home: AbsDirPath::new("/home/.cargo").unwrap(),
        profile: Profile::debug(),
        target_arch: RustcTarget::ImplicitHost,
        host_arch: RustcTargetPlatform::new("x86_64-unknown-linux-gnu").unwrap(),
    }
}

fn hash(text: &str) -> UnitHash {
    UnitHash { text: String::from(text) }
}

fn info(unit: &str, deps: &[&str]) -> UnitPlanInfo {
    UnitPlanInfo {
        unit_hash: hash(unit),
        package_name: format!("pkg-{unit}"),
        package_version: String::from("1.0.0"),
        crate_name: format!("pkg_{unit}"),
        target_arch: RustcTarget::ImplicitHost,
        deps: vec![],
        dep_hashes: deps.iter().map(|d| hash(d)).collect(),
    }
}

fn library(unit: &str, deps: &[&str]) -> UnitPlan {
    UnitPlan::LibraryCrate(LibraryCrateUnitPlan {
        info: info(unit, deps),
        src_path: AbsFilePath::new(&format!("/home/.cargo/{unit}/lib.rs")).unwrap(),
        outputs: vec![],
    })
}

fn script(unit: &str) -> UnitPlan {
    UnitPlan::BuildScriptCompilation(BuildScriptCompilationUnitPlan {
        info: info(unit, &[]),
        src_path: AbsFilePath::new("/home/.cargo/x/build.rs").unwrap(),
    })
}

fn run(unit: &str) -> UnitPlan {
    UnitPlan::BuildScriptExecution(BuildScriptExecutionUnitPlan {
        info: info(unit, &[]),
        build_script_program_name: String::from("build-script-build"),
    })
}

fn key(text: &str) -> Key {
    Key::from_buffer(&text.as_bytes().to_vec())
}

fn fingerprint(rustc: u64, deps: Vec<DepFingerprint>) -> Fingerprint {
    let mut f = Fingerprint::new();
    f.rustc = rustc;
    f.path = 77;
    f.deps = deps;
    f
}

fn saved(f: Fingerprint) -> SavedUnit {
    SavedUnit::LibraryCrate {
        fingerprint: f,
        output_files: vec![StoredFile {
            object_key: key("out"),
            executable: true,
            path: QualifiedPath::RelativeTargetProfile(RelFilePath::new("deps/lib.so").unwrap()),
        }],
        dep_info_file: key("dep"),
        encoded_dep_info_file: key("enc"),
    }
}

fn contents(name: &str) -> UnitContents {
    contents_with(name, fingerprint(3, vec![]))
}

fn contents_with(name: &str, fingerprint: Fingerprint) -> UnitContents {
    UnitContents::LibraryCrate {
        fingerprint,
        output_files: vec![SavedFile {
            path: QualifiedPath::RelativeTargetProfile(RelFilePath::new("deps/lib.so").unwrap()),
            contents: format!("out-{name}").into_bytes(),
            executable: true,
        }],
        dep_info_file: b"dep".to_vec(),
        encoded_dep_info_file: b"enc".to_vec(),
    }
}

#[test]
fn files_of_a_library_are_restored() {
    let files =
        files_to_restore(&workspace(), &library("a", &[]), &saved(fingerprint(1, vec![])), 4)
            .unwrap();
    assert!(files.create_dir.is_none() && files.root_output.is_none());
    let paths: Vec<&str> = files.files.iter().map(|f| f.path.as_str()).collect();
    assert_eq!(
        paths,
        vec![
            "/work/target/debug/deps/lib.so",
            "/work/target/debug/deps/pkg-a-a.d",
            "/work/target/debug/.fingerprint/pkg-a-a/dep-lib-pkg_a",
        ]
    );
    let kinds: Vec<RestoredFileKind> = files.files.iter().map(|f| f.kind).collect();
    assert_eq!(
        kinds,
        vec![
            RestoredFileKind::Output { executable: true },
            RestoredFileKind::DepInfo,
            RestoredFileKind::EncodedDepInfo,
        ]
    );
    assert!(files.files.iter().all(|f| f.mtime == 4 && f.link.is_none()));
    assert!(files.files[1].key.same(&key("dep")));
}

#[test]
fn files_of_build_scripts_are_restored() {
    let unit = SavedUnit::BuildScriptCompilation {
        fingerprint: fingerprint(1, vec![]),
        compiled_program: key("program"),
        dep_info_file: key("dep"),
        encoded_dep_info_file: key("enc"),
    };
    let files = files_to_restore(&workspace(), &script("b"), &unit, 0).unwrap().files;
    assert_eq!(files[0].kind, RestoredFileKind::Program);
    assert_eq!(
        files[0].link.as_ref().unwrap().as_str(),
        "/work/target/debug/build/pkg-b-b/build-script-build"
    );
    let unit = SavedUnit::BuildScriptExecution {
        fingerprint: fingerprint(1, vec![]),
        out_dir_files: vec![],
        stdout: key("o"),
        stderr: key("e"),
    };
    let files = files_to_restore(&workspace(), &run("c"), &unit, 0).unwrap();
    assert_eq!(files.create_dir.unwrap().as_str(), "/work/target/debug/build/pkg-c-c/out");
    let (file, text) = files.root_output.unwrap();
    assert_eq!(file.as_str(), "/work/target/debug/build/pkg-c-c/root-output");
    assert_eq!(text, "/work/target/debug/build/pkg-c-c/out");
    assert_eq!(files.files[0].kind, RestoredFileKind::Stdout);
    assert_eq!(files.files[1].kind, RestoredFileKind::Stderr);
}

#[test]
fn units_that_cannot_be_restored() {
    let ws = workspace();
    let f = || fingerprint(1, vec![]);
    let error = files_to_restore(&ws, &run("a"), &saved(f()), 0).unwrap_err();
    assert_eq!(error, RestoreError::UnitTypeMismatch);
    let relative = SavedUnit::LibraryCrate {
        fingerprint: f(),
        output_files: vec![StoredFile {
            object_key: key("x"),
            executable: false,
            path: QualifiedPath::Rootless(RelFilePath::new("x").unwrap()),
        }],
        dep_info_file: key("d"),
        encoded_dep_info_file: key("e"),
    };
    let error = files_to_restore(&ws, &library("a", &[]), &relative, 0).unwrap_err();
    assert_eq!(error, RestoreError::RelativeFile);
    let mut i = info("a", &[]);
    i.package_name = String::from("/x");
    let odd = UnitPlan::LibraryCrate(LibraryCrateUnitPlan {
        info: i,
        src_path: AbsFilePath::new("/x").unwrap(),
        outputs: vec![],
    });
    let error = files_to_restore(&ws, &odd, &saved(f()), 0).unwrap_err();
    assert_eq!(error, RestoreError::UnitFile(UnitFileError::NotRelative));
}

#[test]
fn presence_is_told_by_fingerprints() {
    let files = presence_files(&workspace(), &vec![library("a", &[])]).unwrap();
    assert_eq!(files.len(), 1);
    assert_eq!(
        files[0].as_str(),
        "/work/target/debug/.fingerprint/pkg-a-a/lib-pkg_a.json"
    );
}

#[test]
fn units_are_restored_in_order() {
    let ws = workspace();
    let mut a = fingerprint(1, vec![]);
    let a_hash = a.hash_u64();
    let b = fingerprint(2, vec![DepFingerprint::from_parts(1, String::from("a"), false, a_hash)]);
    let mut from_cache = SavedUnits::new();
    from_cache.insert(&hash("a"), saved(a));
    from_cache.insert(&hash("b"), saved(b));
    from_cache.insert(&hash("d"), saved(fingerprint(4, vec![])));
    let units = vec![
        library("a", &[]),
        library("b", &["a"]),
        library("c", &[]),
        library("d", &["c"]),
        library("e", &[]),
    ];
    let present = vec![false, false, false, false, true];
    let mut session = RestoreSession::new(units, &present, from_cache);
    let mut progress = RestoreProgress::new();
    assert_eq!(session.incomplete_count(), 1);
    assert!(!session.wants_local_fingerprint());

    let mut a_new = match session.step(&ws, None).unwrap() {
        RestoreStep::Restore { mtime, hash_file, hash_text, json_file, mut fingerprint, files } => {
            assert_eq!(mtime, 0);
            assert!(hash_file.as_str().ends_with("/lib-pkg_a"));
            assert!(json_file.as_str().ends_with("/lib-pkg_a.json"));
            assert_eq!(hash_text, fingerprint.fingerprint_hash());
            let files = files.unwrap().files;
            assert_eq!(files.len(), 3);
            progress.begin(&hash("a"), &files);
            for file in &files {
                progress.complete(&hash("a"), &file.key).unwrap();
            }
            let src = AbsFilePath::new("/home/.cargo/a/lib.rs").unwrap();
            assert_eq!(fingerprint.path, util_hash_u64(&src));
            fingerprint
        }
        _ => panic!("the first unit is restored"),
    };
    match session.step(&ws, None).unwrap() {
        RestoreStep::Restore { mtime, mut fingerprint, .. } => {
            assert_eq!(mtime, 1);
            assert_eq!(
                fingerprint.deps[0].fingerprint.fingerprint_hash(),
                a_new.fingerprint_hash()
            );
        }
        _ => panic!("the second unit is restored"),
    }
    assert!(matches!(
        session.step(&ws, None).unwrap(),
        RestoreStep::Missing { touch: None, mtime: 2 }
    ));
    assert!(matches!(session.step(&ws, None).unwrap(), RestoreStep::Incomplete));
    assert_eq!(session.next_unit().unwrap().info().unit_hash.text, "e");
    assert!(matches!(
        session.step(&ws, None).unwrap(),
        RestoreStep::Missing { touch: Some(Ok(_)), mtime: 4 }
    ));
    assert!(matches!(session.step(&ws, None).unwrap(), RestoreStep::Done));
    progress.begin(&hash("b"), &vec![]);
    let restored = session.finish(&mut progress, &vec![key("out"), key("dep")]).unwrap();
    assert!(restored.has_file(&key("out")) && restored.has_file(&key("dep")));
    assert!(!restored.has_file(&key("enc")));
    assert!(restored.has_unit(&hash("a")) && restored.has_unit(&hash("b")));
    assert!(restored.has_unit(&hash("e")));
    assert!(!restored.has_unit(&hash("c")) && !restored.has_unit(&hash("d")));
}

#[test]
fn units_on_disk_are_kept() {
    let ws = workspace();
    let mut from_cache = SavedUnits::new();
    from_cache.insert(&hash("a"), saved(fingerprint(1, vec![])));
    let mut session = RestoreSession::new(vec![library("a", &[])], &vec![true], from_cache);
    assert!(session.wants_local_fingerprint());
    assert!(matches!(session.step(&ws, None), Err(RestoreError::NoLocalFingerprint)));
    assert_eq!(session.next_unit().unwrap().info().unit_hash.text, "a");
    let step = session.step(&ws, Some(fingerprint(9, vec![]))).unwrap();
    assert!(matches!(step, RestoreStep::Kept { touch: Ok(_), mtime: 0 }));

    let mut from_cache = SavedUnits::new();
    from_cache.insert(&hash("a"), saved(fingerprint(1, vec![])));
    let mut session = RestoreSession::new(vec![library("a", &[])], &vec![true], from_cache);
    let step = session.step(&ws, Some(fingerprint(9, vec![]))).unwrap();
    assert!(matches!(step, RestoreStep::Kept { touch: Ok(_), mtime: 0 }));
    assert!(session.finish(&mut RestoreProgress::new(), &vec![]).unwrap().has_unit(&hash("a")));
}

#[test]
fn units_are_reported_once_their_files_came() {
    for received in 0..4 {
        let mut from_cache = SavedUnits::new();
        from_cache.insert(&hash("a"), saved(fingerprint(1, vec![])));
        let mut session = RestoreSession::new(vec![library("a", &[])], &vec![false], from_cache);
        let mut progress = RestoreProgress::new();
        let files = match session.step(&workspace(), None).unwrap() {
            RestoreStep::Restore { files, .. } => files.unwrap().files,
            _ => panic!("the unit is restored"),
        };
        assert_eq!(files.len(), 3);
        progress.begin(&hash("a"), &files);
        for file in &files[..received] {
            progress.complete(&hash("a"), &file.key).unwrap();
        }
        assert_eq!(progress.is_complete(&hash("a")), received == 3);
        match session.finish(&mut progress, &vec![]) {
            Ok(restored) => assert!(received == 3 && restored.has_unit(&hash("a"))),
            Err(unfinished) => assert!(received < 3 && unfinished.unit_hash.text == "a"),
        }
    }
}

#[test]
fn units_whose_files_were_not_asked_for_are_not_reported() {
    let mut from_cache = SavedUnits::new();
    from_cache.insert(&hash("a"), saved(fingerprint(1, vec![])));
    let mut session = RestoreSession::new(vec![library("a", &[])], &vec![false], from_cache);
    assert!(matches!(session.step(&workspace(), None).unwrap(), RestoreStep::Restore { .. }));
    let unfinished = session.finish(&mut RestoreProgress::new(), &vec![]).err().unwrap();
    assert_eq!(unfinished.unit_hash.text, "a");
}

#[test]
fn unknown_dependencies_stop_a_restore() {
    let f = fingerprint(1, vec![DepFingerprint::from_parts(1, String::from("a"), false, 5)]);
    let mut from_cache = SavedUnits::new();
    from_cache.insert(&hash("a"), saved(f));
    let mut session = RestoreSession::new(vec![library("a", &[])], &vec![false], from_cache);
    assert!(matches!(
        session.step(&workspace(), None),
        Err(RestoreError::Rewrite(RewriteError::UnknownDependency))
    ));
}

#[test]
fn units_are_prepared_for_upload() {
    let (uploads, unit) = prepare_unit(contents("a"));
    let texts: Vec<&[u8]> = uploads.iter().map(|u| u.contents.as_slice()).collect();
    assert_eq!(texts, vec![b"out-a".as_slice(), b"dep", b"enc"]);
    assert!(uploads.iter().all(|u| u.key.same(&Key::from_buffer(&u.contents))));
    match unit {
        SavedUnit::LibraryCrate { output_files, dep_info_file, fingerprint, .. } => {
            assert!(output_files[0].object_key.same(&uploads[0].key));
            assert!(dep_info_file.same(&key("dep")));
            assert_eq!(fingerprint.rustc, 3);
        }
        _ => panic!("a library stays a library"),
    }
}

#[test]
fn saves_count_what_is_uploaded() {
    let mut skip = Restored::new();
    skip.insert_unit(&hash("b"));
    let session = SaveSession::new(vec![library("a", &[]), library("b", &[])]);
    assert_eq!(session.progress().total_units, 2);
    let (session, step) = session.step(&workspace(), &skip, None, None);
    assert!(matches!(step, SaveStep::NeedContents));
    let (session, step) = session.step(&workspace(), &skip, None, Some(contents("a")));
    assert!(matches!(&step, SaveStep::Upload(uploads) if uploads.len() == 3));
    let (session, step) = session.step(&workspace(), &skip, None, None);
    assert!(matches!(step, SaveStep::Skipped));
    let progress = session.progress();
    assert_eq!((progress.uploaded_units, progress.total_units), (1, 1));
    assert_eq!((progress.uploaded_files, progress.uploaded_bytes), (3, 11));
    assert!(session.next_unit().is_none());
    let (session, step) = session.step(&workspace(), &skip, None, None);
    assert!(matches!(step, SaveStep::Done));
    let requests = session.finish();
    assert_eq!(requests.len(), 1);
    assert_eq!(requests[0].unit_hash.text, "a");
}

#[test]
fn saves_request_all_units_but_the_skipped_ones() {
    let mut skip = Restored::new();
    skip.insert_unit(&hash("b"));
    skip.insert_unit(&hash("d"));
    let names = ["a", "b", "c", "d", "e"];
    let mut session = SaveSession::new(names.iter().map(|n| library(n, &[])).collect());
    while let Some(unit) = session.next_unit() {
        let contents = contents(&unit.info().unit_hash.text);
        (session, _) = session.step(&workspace(), &skip, None, Some(contents));
    }
    let requests = session.finish();
    let hashes: Vec<&str> = requests.iter().map(|r| r.unit_hash.text.as_str()).collect();
    assert_eq!(hashes, vec!["a", "c", "e"]);
    let plans: Vec<&str> =
        requests.iter().map(|r| r.plan.info().unit_hash.text.as_str()).collect();
    assert_eq!(plans, hashes);
}

fn workspace_at(home: &str) -> Workspace {
    let mut ws = workspace();
    ws.cargo_home = AbsDirPath::new(home).unwrap();
    ws
}

fn library_at(home: &str, unit: &str, deps: &[&str]) -> UnitPlan {
    UnitPlan::LibraryCrate(LibraryCrateUnitPlan {
        info: info(unit, deps),
        src_path: AbsFilePath::new(&format!("{home}/{unit}/lib.rs")).unwrap(),
        outputs: vec![],
    })
}

fn local_fingerprint(home: &str, unit: &str, deps: Vec<u64>) -> Fingerprint {
    let mut f = fingerprint(3, vec![]);
    f.path = util_hash_u64(&AbsFilePath::new(&format!("{home}/{unit}/lib.rs")).unwrap());
    f.deps = deps
        .into_iter()
        .map(|hash| DepFingerprint::from_parts(1, String::from("a"), false, hash))
        .collect();
    f
}

#[test]
fn saved_fingerprints_do_not_depend_on_the_machine() {
    let save = |home: &str, restored: bool| {
        let ws = workspace_at(home);
        let a = local_fingerprint(home, "a", vec![]);
        let a_hash = a.clone().hash_u64();
        let b = local_fingerprint(home, "b", vec![a_hash]);
        let mut skip = Restored::new();
        if restored {
            skip.insert_unit(&hash("a"));
        }
        let units = vec![library_at(home, "a", &[]), library_at(home, "b", &["a"])];
        let session = SaveSession::new(units);
        assert_eq!(session.wants_local_fingerprint(&skip), restored);
        let (session, _) =
            session.step(&ws, &skip, Some(a.clone()), Some(contents_with("a", a)));
        assert!(!session.wants_local_fingerprint(&skip));
        let (session, _) = session.step(&ws, &skip, None, Some(contents_with("b", b.clone())));
        let requests = session.finish();
        let saved = requests.last().unwrap().unit.fingerprint().clone();
        assert_ne!(saved.path, b.path);
        saved
    };
    let mut here = save("/here/cargo", false);
    let mut there = save("/there/cargo", true);
    assert_eq!(here.path, there.path);
    assert_eq!(here.hash_u64(), there.hash_u64());
    assert_eq!(
        here.deps[0].fingerprint.hash_u64(),
        there.deps[0].fingerprint.hash_u64()
    );
}

#[test]
fn saved_fingerprints_are_restored() {
    let home = "/here/cargo";
    let ws = workspace_at(home);
    let mut a = local_fingerprint(home, "a", vec![]);
    let mut b = local_fingerprint(home, "b", vec![a.hash_u64()]);
    let units = || vec![library_at(home, "a", &[]), library_at(home, "b", &["a"])];
    let mut session = SaveSession::new(units());
    for (name, f) in [("a", a.clone()), ("b", b.clone())] {
        (session, _) =
            session.step(&ws, &Restored::new(), None, Some(contents_with(name, f)));
    }
    let mut from_cache = SavedUnits::new();
    for request in session.finish() {
        from_cache.insert(&request.unit_hash, request.unit);
    }
    let mut session = RestoreSession::new(units(), &vec![false, false], from_cache);
    for want in [a.fingerprint_hash(), b.fingerprint_hash()] {
        match session.step(&ws, None).unwrap() {
            RestoreStep::Restore { hash_text, .. } => assert_eq!(hash_text, want),
            _ => panic!("the unit is restored"),
        }
    }
}

#[test]
fn fingerprints_of_other_sources_keep_their_paths() {
    let ws = workspace_at("/here/cargo");
    let f = local_fingerprint("/vendor", "a", vec![7]);
    let mut known = SavedFingerprints::new();
    let saved = known.enter(&ws, &library_at("/vendor", "a", &[]), f.clone());
    assert_eq!(saved.path, f.path);
    assert_eq!(saved.clone().hash_u64(), f.clone().hash_u64());
    let mut unset = f;
    unset.path = 0;
    let saved = known.enter(&ws, &library_at("/here/cargo", "a", &[]), unset);
    assert_eq!(saved.path, 0);
}

#[test]
fn local_saves_leave_out_what_was_restored() {
    let ws = workspace();
    let glibc = Some(GLIBCVersion { major: 2, minor: 35, patch: 0 });
    let mut skip = Restored::new();
    skip.insert_file(&key("dep"));
    assert!(skip.has_file(&key("dep")) && !skip.has_file(&key("enc")));
    let mut known = SavedFingerprints::new();
    let a = library("a", &[]);
    let save = save_locally(&ws, &a, &skip, &glibc, &mut known, contents("a")).unwrap();
    let texts: Vec<&[u8]> = save.stores.iter().map(|u| u.contents.as_slice()).collect();
    assert_eq!(texts, vec![b"out-a".as_slice(), b"enc"]);
    assert_eq!(save.unit_hash.text, "a");
    assert_eq!(save.target, "x86_64-unknown-linux-gnu");
    assert_eq!(save.glibc, glibc);
    skip.insert_unit(&hash("a"));
    assert!(save_locally(&ws, &a, &skip, &glibc, &mut known, contents("a")).is_none());
}

#[test]
fn glibc_is_known_for_the_host_alone() {
    let ws = workspace();
    let glibc = Some(GLIBCVersion { major: 2, minor: 35, patch: 0 });
    let mut i = info("a", &[]);
    i.target_arch =
        RustcTarget::Specified(RustcTargetPlatform::new("aarch64-unknown-linux-gnu").unwrap());
    let unit = UnitPlan::LibraryCrate(LibraryCrateUnitPlan {
        info: i,
        src_path: AbsFilePath::new("/x").unwrap(),
        outputs: vec![],
    });
    assert_eq!(ws.unit_arch(&unit).as_str(), "aarch64-unknown-linux-gnu");
    assert_eq!(ws.unit_glibc(&unit, &glibc), None);
    assert_eq!(ws.unit_glibc(&library("a", &[]), &glibc), glibc);
}

fn file(unit: &str, contents: &str) -> FileRestoreKey {
    FileRestoreKey {
        unit_hash: hash(unit),
        key: key(contents),
        path: AbsFilePath::new("/x").unwrap(),
        kind: RestoredFileKind::Stderr,
        link: None,
        mtime: 0,
    }
}

#[test]
fn files_are_asked_for_in_batches() {
    let mut batcher = Batcher::new();
    let mut batches = vec![];
    for i in 0..BATCH_SIZE + 1 {
        let (next, batch) = batcher.push(file("a", &format!("{i}")));
        batcher = next;
        batches.extend(batch);
    }
    assert_eq!(batches.len(), 1);
    assert_eq!(batches[0].len(), BATCH_SIZE);
    let rest = batcher.finish().unwrap();
    assert_eq!(rest.len(), 1);
    assert!(rest[0].key.same(&key("50")));
    assert!(Batcher::new().finish().is_none());
}

#[test]
fn received_files_leave_the_batch() {
    let mut batch = Batch::new(vec![file("a", "x"), file("b", "y"), file("c", "x")]);
    assert_eq!(batch.keys().len(), 2);
    let files = batch.take(&key("x")).unwrap();
    let units: Vec<&str> = files.iter().map(|f| f.unit_hash.text.as_str()).collect();
    assert_eq!(units, vec!["a", "c"]);
    assert_eq!(batch.take(&key("x")).unwrap_err(), UnrecognizedKey);
    assert_eq!(batch.keys().len(), 1);
}

#[test]
fn files_that_were_not_received_are_an_error() {
    let mut batch = Batch::new(vec![file("a", "x"), file("b", "y"), file("c", "y")]);
    batch.take(&key("x")).unwrap();
    let left = batch.finish().unwrap_err();
    assert_eq!(left.keys.len(), 1);
    assert!(left.keys[0].same(&key("y")));

    let mut batch = Batch::new(vec![file("a", "x"), file("b", "y")]);
    batch.take(&key("y")).unwrap();
    batch.take(&key("x")).unwrap();
    assert!(batch.finish().is_ok());
    assert!(Batch::new(vec![]).finish().is_ok());
}

#[test]
fn units_are_complete_with_their_last_file() {
    let mut progress = RestoreProgress::new();
    assert_eq!(progress.complete(&hash("a"), &key("x")).unwrap_err(), NotInitialized);
    progress.begin(&hash("a"), &vec![file("a", "x"), file("a", "y"), file("a", "x")]);
    progress.begin(&hash("b"), &vec![file("b", "x")]);
    assert_eq!(progress.complete(&hash("a"), &key("x")), Ok(false));
    assert_eq!(progress.complete(&hash("a"), &key("y")), Ok(true));
    assert_eq!(progress.complete(&hash("b"), &key("x")), Ok(true));
}
