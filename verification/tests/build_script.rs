use hurry::cargo::build_script::{
    BuildScriptOutput, BuildScriptOutputLine, BuildScriptOutputLineStyle, RootOutput,
};
use hurry::cargo::path::Existing;
use hurry::cargo::profile::Profile;
use hurry::cargo::rustc::{RustcTarget, RustcTargetPlatform};
use hurry::cargo::workspace::Workspace;
use hurry::path::{AbsDirPath, AbsFilePath};

const PROFILE: &str = "/work/project/target/debug";
const CARGO: &str = "/home/user/.cargo";

fn workspace() -> Workspace {
    Workspace {
        root: AbsDirPath::new("/work/project").unwrap(),
        build_dir: AbsDirPath::new("/work/project/target").unwrap(),
        cargo_home: AbsDirPath::new(CARGO).unwrap(),
        profile: Profile::debug(),
        target_arch: RustcTarget::ImplicitHost,
        host_arch: RustcTargetPlatform::new("x86_64-unknown-linux-gnu").unwrap(),
    }
}

fn replace_path_placeholders(line: &str) -> String {
    line.replace("__PROFILE__", PROFILE).replace("__CARGO__", CARGO)
}

fn parse(line: &str) -> BuildScriptOutputLine {
    BuildScriptOutputLine::parse(&workspace(), &RustcTarget::ImplicitHost, &Existing::new(), line)
}

const OLD: BuildScriptOutputLineStyle = BuildScriptOutputLineStyle::Old;
const CURRENT: BuildScriptOutputLineStyle = BuildScriptOutputLineStyle::Current;

#[test]
fn parses_rerun_if_changed() {
    for (line, expected_style, expected_path) in [
        ("cargo:rerun-if-changed=__PROFILE__/out/build.rs", OLD, "__PROFILE__/out/build.rs"),
        ("cargo::rerun-if-changed=__PROFILE__/out/build.rs", CURRENT, "__PROFILE__/out/build.rs"),
        ("cargo:rerun-if-changed=__CARGO__/out/build.rs", OLD, "__CARGO__/out/build.rs"),
        ("cargo::rerun-if-changed=__CARGO__/out/build.rs", CURRENT, "__CARGO__/out/build.rs"),
    ] {
        let line = replace_path_placeholders(line);
        let expected_path = replace_path_placeholders(expected_path);
        match parse(&line) {
            BuildScriptOutputLine::RerunIfChanged(style, path) => {
                assert_eq!(
                    path.reconstruct_string(&workspace(), &RustcTarget::ImplicitHost),
                    expected_path
                );
                assert_eq!(style, expected_style);
            }
            _ => panic!("Expected RerunIfChanged variant"),
        }
    }
}

#[test]
fn parses_rerun_if_env_changed() {
    for (line, expected_style, expected_var) in [
        ("cargo:rerun-if-env-changed=RUST_LOG", OLD, "RUST_LOG"),
        ("cargo::rerun-if-env-changed=RUST_LOG", CURRENT, "RUST_LOG"),
    ] {
        match parse(line) {
            BuildScriptOutputLine::RerunIfEnvChanged(style, var) => {
                assert_eq!(var, expected_var);
                assert_eq!(style, expected_style);
            }
            _ => panic!("Expected RerunIfEnvChanged variant"),
        }
    }
}

#[test]
fn parses_rustc_link_arg() {
    for (line, expected_style, expected_flag) in [
        ("cargo:rustc-link-arg=-Wl,-rpath,/custom/path", OLD, "-Wl,-rpath,/custom/path"),
        ("cargo::rustc-link-arg=-Wl,-rpath,/custom/path", CURRENT, "-Wl,-rpath,/custom/path"),
    ] {
        match parse(line) {
            BuildScriptOutputLine::RustcLinkArg(style, flag) => {
                assert_eq!(flag, expected_flag);
                assert_eq!(style, expected_style);
            }
            _ => panic!("Expected RustcLinkArg variant"),
        }
    }
}

#[test]
fn parses_rustc_link_lib() {
    for (line, expected_style, expected_lib) in
        [("cargo:rustc-link-lib=ssl", OLD, "ssl"), ("cargo::rustc-link-lib=ssl", CURRENT, "ssl")]
    {
        match parse(line) {
            BuildScriptOutputLine::RustcLinkLib(style, lib) => {
                assert_eq!(lib, expected_lib);
                assert_eq!(style, expected_style);
            }
            _ => panic!("Expected RustcLinkLib variant"),
        }
    }
}

#[test]
fn parses_rustc_link_search_without_kind() {
    for (line, expected_style, expected_path) in [
        ("cargo:rustc-link-search=__PROFILE__/native", OLD, "__PROFILE__/native"),
        ("cargo::rustc-link-search=__PROFILE__/native", CURRENT, "__PROFILE__/native"),
    ] {
        let line = replace_path_placeholders(line);
        let expected_path = replace_path_placeholders(expected_path);
        match parse(&line) {
            BuildScriptOutputLine::RustcLinkSearch { style, kind, path } => {
                assert_eq!(kind, None);
                assert_eq!(
                    path.reconstruct_string(&workspace(), &RustcTarget::ImplicitHost),
                    expected_path
                );
                assert_eq!(style, expected_style);
            }
            _ => panic!("Expected RustcLinkSearch variant"),
        }
    }
}

#[test]
fn parses_rustc_link_search_with_kind() {
    for (line, expected_style, expected_kind, expected_path) in [
        ("cargo:rustc-link-search=native=__PROFILE__/lib", OLD, "native", "__PROFILE__/lib"),
        ("cargo::rustc-link-search=native=__PROFILE__/lib", CURRENT, "native", "__PROFILE__/lib"),
    ] {
        let line = replace_path_placeholders(line);
        let expected_path = replace_path_placeholders(expected_path);
        match parse(&line) {
            BuildScriptOutputLine::RustcLinkSearch { style, kind, path } => {
                assert_eq!(kind, Some(String::from(expected_kind)));
                assert_eq!(
                    path.reconstruct_string(&workspace(), &RustcTarget::ImplicitHost),
                    expected_path
                );
                assert_eq!(style, expected_style);
            }
            _ => panic!("Expected RustcLinkSearch variant"),
        }
    }
}

#[test]
fn parses_rustc_flags() {
    for (line, expected_style, expected_flags) in [
        ("cargo:rustc-flags=-l dylib=foo", OLD, "-l dylib=foo"),
        ("cargo::rustc-flags=-l dylib=foo", CURRENT, "-l dylib=foo"),
    ] {
        match parse(line) {
            BuildScriptOutputLine::RustcFlags(style, flags) => {
                assert_eq!(flags, expected_flags);
                assert_eq!(style, expected_style);
            }
            _ => panic!("Expected RustcFlags variant"),
        }
    }
}

#[test]
fn parses_rustc_cfg() {
    for (line, expected_style, expected_key, expected_value) in [
        ("cargo:rustc-cfg=feature=\"custom\"", OLD, "feature", Some("\"custom\"")),
        ("cargo::rustc-cfg=feature=\"custom\"", CURRENT, "feature", Some("\"custom\"")),
        ("cargo:rustc-cfg=has_feature", OLD, "has_feature", None),
        ("cargo::rustc-cfg=has_feature", CURRENT, "has_feature", None),
    ] {
        match parse(line) {
            BuildScriptOutputLine::RustcCfg { style, key, value } => {
                assert_eq!(key, expected_key);
                assert_eq!(value.as_deref(), expected_value);
                assert_eq!(style, expected_style);
            }
            _ => panic!("Expected RustcCfg variant"),
        }
    }
}

#[test]
fn parses_rustc_check_cfg() {
    for (line, expected_style, expected_check_cfg) in [
        ("cargo:rustc-check-cfg=cfg(foo)", OLD, "cfg(foo)"),
        ("cargo::rustc-check-cfg=cfg(foo)", CURRENT, "cfg(foo)"),
    ] {
        match parse(line) {
            BuildScriptOutputLine::RustcCheckCfg(style, check_cfg) => {
                assert_eq!(check_cfg, expected_check_cfg);
                assert_eq!(style, expected_style);
            }
            _ => panic!("Expected RustcCheckCfg variant"),
        }
    }
}

#[test]
fn parses_rustc_env() {
    for (line, expected_style, expected_var, expected_value) in [
        ("cargo:rustc-env=FOO=bar", OLD, "FOO", "bar"),
        ("cargo::rustc-env=FOO=bar", CURRENT, "FOO", "bar"),
    ] {
        match parse(line) {
            BuildScriptOutputLine::RustcEnv { style, var, value } => {
                assert_eq!(var, expected_var);
                assert_eq!(value, expected_value);
                assert_eq!(style, expected_style);
            }
            _ => panic!("Expected RustcEnv variant"),
        }
    }
}

#[test]
fn parses_error() {
    for (line, expected_style, expected_msg) in [
        ("cargo:error=Something went wrong", OLD, "Something went wrong"),
        ("cargo::error=Something went wrong", CURRENT, "Something went wrong"),
    ] {
        match parse(line) {
            BuildScriptOutputLine::Error(style, msg) => {
                assert_eq!(msg, expected_msg);
                assert_eq!(style, expected_style);
            }
            _ => panic!("Expected Error variant"),
        }
    }
}

#[test]
fn parses_warning() {
    for (line, expected_style, expected_msg) in [
        ("cargo:warning=This is a warning", OLD, "This is a warning"),
        ("cargo::warning=This is a warning", CURRENT, "This is a warning"),
    ] {
        match parse(line) {
            BuildScriptOutputLine::Warning(style, msg) => {
                assert_eq!(msg, expected_msg);
                assert_eq!(style, expected_style);
            }
            _ => panic!("Expected Warning variant"),
        }
    }
}

#[test]
fn parses_metadata() {
    for (line, expected_style, expected_key, expected_value) in [
        ("cargo:metadata=key=value", OLD, "key", "value"),
        ("cargo::metadata=key=value", CURRENT, "key", "value"),
    ] {
        match parse(line) {
            BuildScriptOutputLine::Metadata { style, key, value } => {
                assert_eq!(key, expected_key);
                assert_eq!(value, expected_value);
                assert_eq!(style, expected_style);
            }
            _ => panic!("Expected Metadata variant"),
        }
    }
}

#[test]
fn parses_other_lines() {
    for line in ["OUT_DIR = Some(/path/to/out)", "cargo:unknown=value", "random text", ""] {
        match parse(line) {
            BuildScriptOutputLine::Other(content) => assert_eq!(content, line),
            _ => panic!("Expected Other variant for line: {}", line),
        }
    }
}

#[test]
fn parses_rustc_env_without_equals() {
    let line = "cargo:rustc-env=INVALID";
    match parse(line) {
        BuildScriptOutputLine::Other(content) => assert_eq!(content, line),
        _ => panic!("Expected Other variant for malformed rustc-env"),
    }
}

#[test]
fn parses_metadata_without_equals() {
    let line = "cargo:metadata=INVALID";
    match parse(line) {
        BuildScriptOutputLine::Other(content) => assert_eq!(content, line),
        _ => panic!("Expected Other variant for malformed metadata"),
    }
}

#[test]
fn whole_output_is_written_down_again() {
    let input = replace_path_placeholders(
        "OUT_DIR = Some(__PROFILE__/build/zstd-sys-eb89796c05cc5c90/out)\n\
         cargo:rerun-if-env-changed=ZSTD_SYS_USE_PKG_CONFIG\n\
         \n\
         cargo::rustc-cfg=std\n\
         cargo:rustc-link-search=native=__PROFILE__/build/zstd-sys-eb89796c05cc5c90/out\n\
         cargo:rerun-if-changed=__CARGO__/registry/src/zstd-sys-2.0.15/build.rs\n\
         cargo:rerun-if-changed=build.rs\n\
         cargo:rustc-link-search=/usr/lib\n\
         cargo:root=__PROFILE__/build/zstd-sys-eb89796c05cc5c90/out\n",
    );
    let target = RustcTarget::ImplicitHost;
    let parsed = BuildScriptOutput::parse(&workspace(), &target, &Existing::new(), &input);
    assert_eq!(parsed.reconstruct(&workspace(), &target), input.trim_end());
}

#[test]
fn paths_move_to_another_machine() {
    let there = Workspace {
        root: AbsDirPath::new("/ci/build").unwrap(),
        build_dir: AbsDirPath::new("/ci/build/target").unwrap(),
        cargo_home: AbsDirPath::new("/ci/cargo").unwrap(),
        profile: Profile::new("release").unwrap(),
        target_arch: RustcTarget::ImplicitHost,
        host_arch: RustcTargetPlatform::new("x86_64-unknown-linux-gnu").unwrap(),
    };
    let target = RustcTarget::ImplicitHost;
    let line = parse(&replace_path_placeholders("cargo::rerun-if-changed=__PROFILE__/build/a.h"));
    assert_eq!(
        line.reconstruct(&there, &target),
        "cargo::rerun-if-changed=/ci/build/target/release/build/a.h"
    );
    let line = parse(&replace_path_placeholders("cargo:rustc-link-search=native=__CARGO__/lib"));
    assert_eq!(
        line.reconstruct(&there, &target),
        "cargo:rustc-link-search=native=/ci/cargo/lib"
    );
    let line = parse("cargo:rerun-if-changed=/usr/include/zlib.h");
    assert_eq!(
        line.reconstruct(&there, &target),
        "cargo:rerun-if-changed=/usr/include/zlib.h"
    );
}

#[test]
fn relative_paths_are_looked_for() {
    let target = RustcTarget::ImplicitHost;
    let mut existing = Existing::new();
    existing.insert(&AbsFilePath::new("/home/user/.cargo/wrapper.h").unwrap());
    let line = BuildScriptOutputLine::parse(
        &workspace(),
        &target,
        &existing,
        "cargo:rerun-if-changed=wrapper.h",
    );
    assert_eq!(
        line.reconstruct(&workspace(), &target),
        "cargo:rerun-if-changed=/home/user/.cargo/wrapper.h"
    );
    let line = parse("cargo:rerun-if-changed=wrapper.h");
    assert_eq!(line.reconstruct(&workspace(), &target), "cargo:rerun-if-changed=wrapper.h");
}

#[test]
fn styles_are_told_by_their_prefix() {
    assert_eq!(BuildScriptOutputLineStyle::from_str("cargo:").unwrap(), OLD);
    assert_eq!(BuildScriptOutputLineStyle::from_str("cargo::").unwrap(), CURRENT);
    assert!(BuildScriptOutputLineStyle::from_str("cargo").is_err());
    assert_eq!(OLD.as_str(), "cargo:");
    assert_eq!(CURRENT.as_str(), "cargo::");
    assert_eq!(
        BuildScriptOutputLineStyle::parse_line("cargo::a=b").unwrap(),
        (CURRENT, String::from("a=b"))
    );
    assert_eq!(
        BuildScriptOutputLineStyle::parse_line("cargo:a=b").unwrap(),
        (OLD, String::from("a=b"))
    );
    assert!(BuildScriptOutputLineStyle::parse_line("a=b").is_err());
}

#[test]
fn root_output_holds_one_line() {
    let target = RustcTarget::ImplicitHost;
    let ws = workspace();
    let text = "/work/project/target/debug/build/rustls-5590c033895e7e9a/out";
    let root = RootOutput::parse(&ws, &target, &Existing::new(), text).unwrap();
    assert_eq!(root.reconstruct(&ws, &target), text);
    assert!(RootOutput::parse(&ws, &target, &Existing::new(), "a\nb").is_err());
    assert!(RootOutput::parse(&ws, &target, &Existing::new(), "").is_err());
}
