use hurry::cargo::message_format::{
    collect_messages, extract_artifact_hashes, message_text, message_texts, ArtifactProfile,
    ArtifactTarget, BuildFinished, CargoMessage, CompilerArtifact, MessageKind,
};

fn strings(value: &serde_json::Value) -> Vec<String> {
    value.as_array().unwrap().iter().map(|v| String::from(v.as_str().unwrap())).collect()
}

fn string(value: &serde_json::Value) -> String {
    String::from(value.as_str().unwrap())
}

fn parse_message(line: &str) -> Option<CargoMessage> {
    let json = message_text(line)?;
    let value: serde_json::Value = serde_json::from_str(&json).unwrap();
    Some(match MessageKind::from_reason(value["reason"].as_str().unwrap()) {
        MessageKind::CompilerArtifact => CargoMessage::CompilerArtifact(CompilerArtifact {
            package_id: string(&value["package_id"]),
            target: ArtifactTarget {
                kind: strings(&value["target"]["kind"]),
                crate_types: strings(&value["target"]["crate_types"]),
                name: string(&value["target"]["name"]),
                src_path: string(&value["target"]["src_path"]),
            },
            profile: ArtifactProfile {
                opt_level: string(&value["profile"]["opt_level"]),
                debuginfo: value["profile"]["debuginfo"].as_u64().map(|n| n as u32),
                debug_assertions: value["profile"]["debug_assertions"].as_bool().unwrap(),
                overflow_checks: value["profile"]["overflow_checks"].as_bool().unwrap(),
                test: value["profile"]["test"].as_bool().unwrap(),
            },
            filenames: strings(&value["filenames"]),
            fresh: value["fresh"].as_bool().unwrap(),
            manifest_path: string(&value["manifest_path"]),
        }),
        MessageKind::BuildFinished => CargoMessage::BuildFinished(BuildFinished {
            success: value["success"].as_bool().unwrap(),
        }),
        MessageKind::Unknown => CargoMessage::Unknown,
        kind => panic!("no message of kind {kind:?} here"),
    })
}

fn artifact(kind: &str, crate_type: &str, name: &str, src: &str, file: &str) -> CompilerArtifact {
    CompilerArtifact {
        package_id: String::from("test"),
        target: ArtifactTarget {
            kind: vec![String::from(kind)],
            crate_types: vec![String::from(crate_type)],
            name: String::from(name),
            src_path: String::from(src),
        },
        profile: ArtifactProfile {
            opt_level: String::from("0"),
            debuginfo: Some(2),
            debug_assertions: true,
            overflow_checks: true,
            test: false,
        },
        filenames: vec![String::from(file)],
        fresh: false,
        manifest_path: String::from("/path/to/Cargo.toml"),
    }
}

#[test]
fn parse_compiler_artifact() {
    let json = r#"{"reason":"compiler-artifact","package_id":"serde 1.0.0 (registry+https://github.com/rust-lang/crates.io-index)","manifest_path":"/path/to/Cargo.toml","target":{"kind":["lib"],"crate_types":["lib"],"name":"serde","src_path":"/path/to/lib.rs"},"profile":{"opt_level":"0","debuginfo":2,"debug_assertions":true,"overflow_checks":true,"test":false},"features":[],"filenames":["/path/to/target/debug/deps/libserde-abc123.rlib","/path/to/target/debug/deps/libserde-abc123.rmeta"],"fresh":false}"#;
    match parse_message(json).unwrap() {
        CargoMessage::CompilerArtifact(artifact) => {
            assert_eq!(artifact.fresh, false);
            assert_eq!(artifact.filenames.len(), 2);
            assert_eq!(artifact.unit_hash().unwrap().text, "abc123");
            assert!(artifact.is_library());
            assert!(!artifact.is_build_script());
        }
        _ => panic!("expected CompilerArtifact"),
    }
}

#[test]
fn parse_build_finished() {
    let json = r#"{"reason":"build-finished","success":true}"#;
    match parse_message(json).unwrap() {
        CargoMessage::BuildFinished(finished) => assert_eq!(finished.success, true),
        _ => panic!("expected BuildFinished"),
    }
}

#[test]
fn parse_unknown_reason() {
    let json = r#"{"reason":"future-message-type","data":"something"}"#;
    let msg = parse_message(json).unwrap();
    assert!(matches!(msg, CargoMessage::Unknown));
}

#[test]
fn extract_hash_from_rlib() {
    let artifact = artifact(
        "lib",
        "lib",
        "test",
        "/path/to/lib.rs",
        "/path/to/target/debug/deps/libtest-1a2b3c4d.rlib",
    );
    assert_eq!(artifact.unit_hash().unwrap().text, "1a2b3c4d");
}

#[test]
fn extract_hash_from_build_script() {
    let artifact = artifact(
        "custom-build",
        "bin",
        "build-script-build",
        "/path/to/build.rs",
        "/path/to/target/debug/build/test-abcdef12/build-script-build",
    );
    assert_eq!(artifact.unit_hash().unwrap().text, "build");
    assert!(artifact.is_build_script());
}

#[test]
fn empty_line_returns_none() {
    assert!(parse_message("").is_none());
    assert!(parse_message("   ").is_none());
    assert!(parse_message("\t\n").is_none());
}

#[test]
fn debugging_files_have_no_hash() {
    let mut a = artifact("lib", "lib", "x", "/x/lib.rs", "/x/libx-1.so.dwp");
    assert!(a.unit_hash().is_none());
    a.filenames.push(String::from("/x/libx-22.so"));
    assert_eq!(a.unit_hash().unwrap().text, "22");
    a.filenames = vec![];
    assert!(a.unit_hash().is_none());
    a.filenames = vec![String::from("libx.rlib")];
    assert!(a.unit_hash().is_none());
}

#[test]
fn kinds_of_artifacts() {
    let kind = |k: &str| artifact(k, "lib", "x", "/x", "/x");
    for library in ["lib", "rlib", "cdylib", "proc-macro"] {
        assert!(kind(library).is_library());
    }
    assert!(!kind("bin").is_library());
    assert!(kind("bin").is_binary());
    assert!(kind("test").is_test());
    assert!(kind("bench").is_bench());
    assert!(kind("example").is_example());
    assert!(!kind("example").is_test());
}

#[test]
fn all_messages_or_the_first_failure() {
    assert_eq!(message_texts("{}\n\n  {\"a\":1} \r\n"), vec!["{}", "{\"a\":1}"]);
    let ok = collect_messages(vec![Some(CargoMessage::Unknown), Some(CargoMessage::Unknown)]);
    assert_eq!(ok.unwrap().len(), 2);
    let err = collect_messages(vec![Some(CargoMessage::Unknown), None, None]);
    assert_eq!(err.unwrap_err(), 1);
}

#[test]
fn hashes_of_artifacts_only() {
    let messages = vec![
        CargoMessage::Unknown,
        CargoMessage::CompilerArtifact(artifact("lib", "lib", "a", "/a", "/x/liba-11.rlib")),
        CargoMessage::BuildFinished(BuildFinished { success: true }),
        CargoMessage::CompilerArtifact(artifact("lib", "lib", "b", "/b", "/x/nothing")),
        CargoMessage::CompilerArtifact(artifact("lib", "lib", "c", "/c", "/x/libc-33.rmeta")),
    ];
    let hashes: Vec<String> =
        extract_artifact_hashes(&messages).into_iter().map(|h| h.text).collect();
    assert_eq!(hashes, vec!["11", "33"]);
}

#[test]
fn reasons_of_messages() {
    assert_eq!(MessageKind::from_reason("compiler-message"), MessageKind::CompilerMessage);
    assert_eq!(MessageKind::from_reason("build-script-executed"), MessageKind::BuildScriptExecuted);
    assert_eq!(MessageKind::from_reason(""), MessageKind::Unknown);
}
