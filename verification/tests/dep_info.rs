use hurry::cargo::build_script::BuildScriptOutputLineStyle;
use hurry::cargo::dep_info::{DepInfo, DepInfoLine};
use hurry::cargo::metadata;
use hurry::cargo::metadata::{LineError, RootOutputError};
use hurry::cargo::path::Existing;
use hurry::cargo::profile::Profile;
use hurry::cargo::rustc::{RustcTarget, RustcTargetPlatform};
use hurry::cargo::workspace::Workspace;
use hurry::path::AbsDirPath;

const HOST: RustcTarget = RustcTarget::ImplicitHost;

fn workspace(root: &str, cargo_home: &str) -> Workspace {
    Workspace {
        root: AbsDirPath::new(root).unwrap(),
        build_dir: AbsDirPath::new(&format!("{root}/target")).unwrap(),
        cargo_home: AbsDirPath::new(cargo_home).unwrap(),
        profile: Profile::debug(),
        target_arch: RustcTarget::ImplicitHost,
        host_arch: RustcTargetPlatform::new("x86_64-unknown-linux-gnu").unwrap(),
    }
}

fn here() -> Workspace {
    workspace("/work", "/home/.cargo")
}

const FILE: &str = "/work/target/debug/deps/humantime-1c46d64671e0aaa7.d: \
/home/.cargo/registry/src/humantime-2.2.0/src/lib.rs \
/home/.cargo/registry/src/humantime-2.2.0/src/date.rs\n\
\n\
/home/.cargo/registry/src/humantime-2.2.0/src/lib.rs: \n\
# env-dep:CARGO\n\
/usr/include/a.h: b.h\n";

#[test]
fn files_move_to_another_machine() {
    let parsed = DepInfo::parse(&here(), &HOST, &Existing::new(), FILE).unwrap();
    assert_eq!(parsed.lines().len(), 5);
    assert_eq!(parsed.reconstruct(&here(), &HOST), FILE.trim_end());
    let there = workspace("/ci", "/ci/cargo");
    let moved = FILE.replace("/work/", "/ci/").replace("/home/.cargo/", "/ci/cargo/");
    assert_eq!(parsed.reconstruct(&there, &HOST), moved.trim_end());
    assert_eq!(
        parsed.reconstruct_raw(&there.arch_profile_dir(&HOST), &there.cargo_home),
        moved.trim_end()
    );
    let again = DepInfo::parse(&there, &HOST, &Existing::new(), &moved).unwrap();
    assert_eq!(format!("{again:?}"), format!("{parsed:?}"));
}

#[test]
fn lines_are_written_as_they_were_read() {
    for line in [
        "",
        "#",
        "# env-dep:CARGO=/work/target",
        "/work/target/debug/a.d: /home/.cargo/a/lib.rs",
        "/work/target/debug/a.d: /work/target/debug/b.rs /home/.cargo/a/lib.rs",
        "/home/.cargo/a/lib.rs: /home/.cargo/a/lib.rs",
        "/home/.cargo/a/lib.rs: ",
        "/home/.cargo/a:: /home/.cargo/a:b",
    ] {
        let read = DepInfoLine::parse(&here(), &HOST, &Existing::new(), line).unwrap();
        assert_eq!(read.reconstruct(&here(), &HOST), line);
    }
    let read = DepInfoLine::parse(&here(), &HOST, &Existing::new(), "/home/.cargo/lib.rs:").unwrap();
    assert_eq!(read.reconstruct(&here(), &HOST), "/home/.cargo/lib.rs: ");
}

#[test]
fn only_the_roots_change_on_another_machine() {
    let file = "# made by rustc\n\
/work/target/debug/deps/a.d: /home/.cargo/registry/src/a-1.0.0/src/lib.rs\n\
\n\
/work/target/debug/deps/liba.rlib: /work/target/debug/build/a/out/gen.rs\n\
\n\
/home/.cargo/registry/src/a-1.0.0/src/lib.rs:\n";
    let read = DepInfo::parse(&here(), &HOST, &Existing::new(), file).unwrap();
    assert_eq!(
        read.reconstruct(&workspace("/ci", "/ci/cargo"), &HOST),
        "# made by rustc\n\
/ci/target/debug/deps/a.d: /ci/cargo/registry/src/a-1.0.0/src/lib.rs\n\
\n\
/ci/target/debug/deps/liba.rlib: /ci/target/debug/build/a/out/gen.rs\n\
\n\
/ci/cargo/registry/src/a-1.0.0/src/lib.rs: "
    );
}

#[test]
fn outputs_and_inputs() {
    let parsed = DepInfo::parse(&here(), &HOST, &Existing::new(), FILE).unwrap();
    let builds = parsed.builds();
    assert_eq!(builds.len(), 3);
    assert_eq!(builds[0].1.len(), 2);
    assert_eq!(builds[1].1.len(), 0);
    let outputs: Vec<String> =
        parsed.build_outputs().iter().map(|o| o.reconstruct_string(&here(), &HOST)).collect();
    assert_eq!(
        outputs,
        vec![
            "/work/target/debug/deps/humantime-1c46d64671e0aaa7.d",
            "/home/.cargo/registry/src/humantime-2.2.0/src/lib.rs",
            "/usr/include/a.h",
        ]
    );
}

#[test]
fn lines_of_all_kinds() {
    let parse = |line: &str| DepInfoLine::parse(&here(), &HOST, &Existing::new(), line);
    assert!(matches!(parse(""), Ok(DepInfoLine::Space)));
    assert!(matches!(parse("# x"), Ok(DepInfoLine::Comment(c)) if c == " x"));
    assert!(matches!(parse("a:"), Ok(DepInfoLine::Build(_, inputs)) if inputs.is_empty()));
    assert!(matches!(parse("a: b  c"), Ok(DepInfoLine::Build(_, inputs)) if inputs.len() == 2));
    assert!(parse("a b").is_err());
    assert_eq!(DepInfoLine::path_texts("a: b c"), vec!["a", "b", "c"]);
    assert_eq!(DepInfoLine::path_texts("a:"), vec!["a"]);
    assert!(DepInfoLine::path_texts("# a: b").is_empty());
    assert!(DepInfoLine::path_texts("a b").is_empty());
}

#[test]
fn the_first_bad_line_is_told() {
    let error = DepInfo::parse(&here(), &HOST, &Existing::new(), "a: b\n\nbad\nworse").unwrap_err();
    assert_eq!(error.line, 2);
}

#[test]
fn the_strict_reading_needs_known_roots() {
    let ws = here();
    let none = Existing::new();
    let known = "/work/target/debug/a.d: /home/.cargo/b.rs c.rs\n# c\n";
    let strict = metadata::DepInfo::parse(&ws, &HOST, &none, known).unwrap();
    assert_eq!(strict.reconstruct(&ws, &HOST), known.trim_end());
    assert_eq!(strict.lines().len(), 2);
    assert_eq!(strict.builds().len(), 1);
    assert_eq!(strict.build_outputs()[0].reconstruct(&ws, &HOST), "/work/target/debug/a.d");

    let error = metadata::DepInfo::parse(&ws, &HOST, &none, FILE).unwrap_err();
    assert_eq!((error.line, error.error), (4, LineError::UnknownRoot));
    let error = metadata::DepInfo::parse(&ws, &HOST, &none, "a: /usr/b").unwrap_err();
    assert_eq!((error.line, error.error), (0, LineError::UnknownRoot));
    let error = metadata::DepInfo::parse(&ws, &HOST, &none, "\nbad").unwrap_err();
    assert_eq!((error.line, error.error), (1, LineError::NoSeparator));
}

#[test]
fn the_strict_reading_of_build_script_files() {
    let ws = here();
    let none = Existing::new();
    let root = metadata::RootOutput::parse(&ws, &HOST, &none, "/work/target/debug/build/a/out");
    assert_eq!(root.unwrap().reconstruct(&ws, &HOST), "/work/target/debug/build/a/out");
    assert_eq!(
        metadata::RootOutput::parse(&ws, &HOST, &none, "/usr/out").unwrap_err(),
        RootOutputError::UnknownRoot
    );
    assert_eq!(
        metadata::RootOutput::parse(&ws, &HOST, &none, "a\nb").unwrap_err(),
        RootOutputError::NotOneLine
    );

    let text = "cargo:rerun-if-changed=/home/.cargo/a.c\n\
cargo::rerun-if-changed=/work/target/debug/b.c\n\
cargo::rerun-if-env-changed=/home/.cargo/a.c\nx\n";
    let output = metadata::BuildScriptOutput::parse(&ws, &HOST, &none, text).unwrap();
    assert_eq!(output.reconstruct(&ws, &HOST), text.trim_end());
    let there = workspace("/ci", "/ci/cargo");
    assert_eq!(
        output.reconstruct(&there, &HOST),
        "cargo:rerun-if-changed=/ci/cargo/a.c\n\
cargo::rerun-if-changed=/ci/target/debug/b.c\n\
cargo::rerun-if-env-changed=/home/.cargo/a.c\nx"
    );
    assert!(matches!(
        output.lines[0],
        metadata::BuildScriptOutputLine::RerunIfChanged(BuildScriptOutputLineStyle::Old, _)
    ));
    assert!(matches!(
        output.lines[1],
        metadata::BuildScriptOutputLine::RerunIfChanged(BuildScriptOutputLineStyle::Current, _)
    ));
    assert!(matches!(output.lines[2], metadata::BuildScriptOutputLine::Other(_)));
    for line in ["cargo:rerun-if-changed=/usr/b", "cargo::rerun-if-changed=/usr/b"] {
        let text = format!("x\n{line}");
        let error = metadata::BuildScriptOutput::parse(&ws, &HOST, &none, &text);
        assert_eq!(error.unwrap_err(), 1);
    }
    assert!(metadata::QualifiedPath::parse(&ws, &HOST, &none, "/usr/b").is_err());
}
