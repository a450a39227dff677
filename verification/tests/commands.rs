use hurry::cargo::cache::save::SaveProgress;
use hurry::cargo::rustc::RustcTarget;
use hurry::cargo::units::build_script_execution::BuildScriptExecutionUnitPlan;
use hurry::cargo::workspace::{UnitHash, UnitPlan, UnitPlanInfo};
use hurry::cmd::cache::{ResetOptions, ResetStep, ShowFilter};
use hurry::cmd::daemon::{
    idle_step, log_file, may_start, startup_step, status_text, stop_step, DaemonContext, IdleStep,
    StartupStep, StopStep,
};
use hurry::cmd::debug::{
    artifacts, check_argv, check_output, listing, nesting_of, sort_files, stale_units, CheckError,
    ListingError, UnitFreshness, MAX_NESTING,
};
use hurry::cmd::dispatch::{accelerated, dispatch, is_help_request, Accelerated, Dispatch, Tool};
use hurry::cmd::flow::{BuildOptions, BuildStep, MissingToken, WaitForUpload};
use hurry::cmd::upload::{
    status_endpoint, upload_endpoint, CargoUploadStatus, NoUploadStatus, ProgressDelta,
    UploadWatch, WatchStep,
};
use hurry::cmd::wrapper;
use hurry::cmd::wrapper::{
    compiler_call, exit_code, recorded_env, CompilerStatus, WrapperError, WRAPPER_NAME,
};
use hurry::path::{AbsDirPath, AbsFilePath};

fn strings(list: &[&str]) -> Vec<String> {
    list.iter().map(|s| String::from(*s)).collect()
}

fn pairs(list: &[(&str, &str)]) -> Vec<(String, String)> {
    list.iter().map(|(a, b)| (String::from(*a), String::from(*b))).collect()
}

#[test]
fn commands_are_told_apart() {
    assert!(matches!(dispatch(Tool::Cargo, false, &vec![]), Dispatch::Plain));
    let cargo = |args: &[&str]| dispatch(Tool::Cargo, false, &strings(args));
    assert!(matches!(cargo(&["build", "-r"]), Dispatch::Accelerate(Accelerated::Build)));
    assert!(matches!(cargo(&["c"]), Dispatch::Accelerate(Accelerated::Check)));
    assert!(matches!(cargo(&["t"]), Dispatch::Accelerate(Accelerated::Test)));
    assert!(matches!(cargo(&["clippy"]), Dispatch::Accelerate(Accelerated::Clippy)));
    match cargo(&["--version", "build"]) {
        Dispatch::PassThrough { command, options } => {
            assert_eq!(command, "--version");
            assert_eq!(options, vec!["build"]);
        }
        _ => panic!("flags are passed on"),
    }
    assert!(matches!(cargo(&["fmt"]), Dispatch::PassThrough { .. }));
    assert!(matches!(
        dispatch(Tool::Cargo, true, &strings(&["build"])),
        Dispatch::PassThrough { .. }
    ));
    assert_eq!(accelerated(Tool::Cross, "b"), Some(Accelerated::Build));
    assert_eq!(accelerated(Tool::Cargo, "b"), None);
    assert_eq!(accelerated(Tool::Cross, "test"), None);
    assert!(is_help_request(&strings(&["x", "-h"])));
    assert!(is_help_request(&strings(&["--help"])));
    assert!(!is_help_request(&strings(&["help"])));
}

fn options() -> BuildOptions {
    BuildOptions {
        tool: Tool::Cargo,
        command: Accelerated::Build,
        argv: vec![],
        has_token: true,
        local_mode: false,
        skip_restore: false,
        skip_build: false,
        skip_backup: false,
        wait: true,
    }
}

#[test]
fn steps_of_builds() {
    assert_eq!(
        options().steps().unwrap(),
        vec![
            BuildStep::OpenWorkspace,
            BuildStep::PlanUnits,
            BuildStep::OpenRemoteCache,
            BuildStep::Restore,
            BuildStep::RunTool,
            BuildStep::Save,
            BuildStep::WaitForUpload,
        ]
    );
    let mut o = options();
    o.local_mode = true;
    o.has_token = false;
    o.skip_build = true;
    assert_eq!(
        o.steps().unwrap(),
        vec![
            BuildStep::OpenWorkspace,
            BuildStep::PlanUnits,
            BuildStep::OpenLocalCache,
            BuildStep::Restore,
            BuildStep::Save,
        ]
    );
    let mut o = options();
    o.has_token = false;
    assert_eq!(o.steps().unwrap_err(), MissingToken);
    o.argv = strings(&["--help"]);
    assert_eq!(o.steps().unwrap(), vec![BuildStep::PassHelp]);
    let mut o = options();
    o.skip_restore = true;
    o.skip_backup = true;
    assert_eq!(o.steps().unwrap().len(), 4);
}

#[test]
fn uploads_are_waited_for() {
    let ci = pairs(&[("CI", "true")]);
    assert!(WaitForUpload::from_option(None).should_wait(&ci));
    assert!(!WaitForUpload::from_option(None).should_wait(&vec![]));
    assert!(WaitForUpload::from_option(Some(true)).should_wait(&vec![]));
    assert!(!WaitForUpload::from_option(Some(false)).should_wait(&ci));
}

fn progress(units: u64, total: u64, files: u64, bytes: u64) -> CargoUploadStatus {
    CargoUploadStatus::InProgress(SaveProgress {
        uploaded_units: units,
        total_units: total,
        uploaded_files: files,
        uploaded_bytes: bytes,
    })
}

#[test]
fn uploads_are_watched() {
    let mut watch = UploadWatch::new();
    assert_eq!(watch.update(None), Err(NoUploadStatus));
    assert_eq!(
        watch.update(Some(progress(1, 9, 2, 30))),
        Ok(WatchStep::Show(ProgressDelta { bytes: 30, files: 2, units: 1, fewer_units: 0 }))
    );
    assert_eq!(
        watch.update(Some(progress(3, 7, 2, 50))),
        Ok(WatchStep::Show(ProgressDelta { bytes: 20, files: 0, units: 2, fewer_units: 2 }))
    );
    assert_eq!(watch.update(Some(CargoUploadStatus::Complete)), Ok(WatchStep::Finish));
    assert_eq!(status_endpoint("127.0.0.1:9"), "http://127.0.0.1:9/api/v0/cargo/status");
    assert_eq!(upload_endpoint("127.0.0.1:9"), "http://127.0.0.1:9/api/v0/cargo/upload");
}

#[test]
fn resets_need_consent() {
    let step = |yes, remote, said| ResetOptions { yes, remote }.step(said);
    assert_eq!(step(true, false, None), ResetStep::NothingChosen);
    assert_eq!(step(false, true, None), ResetStep::Confirm);
    assert_eq!(step(false, true, Some(false)), ResetStep::Stop);
    assert_eq!(step(false, true, Some(true)), ResetStep::ResetRemote);
    assert_eq!(step(true, true, None), ResetStep::ResetRemote);
}

fn unit(name: &str, version: &str) -> UnitPlan {
    UnitPlan::BuildScriptExecution(BuildScriptExecutionUnitPlan {
        info: UnitPlanInfo {
            unit_hash: UnitHash { text: String::from("1") },
            package_name: String::from(name),
            package_version: String::from(version),
            crate_name: String::from(name),
            target_arch: RustcTarget::ImplicitHost,
            deps: vec![],
            dep_hashes: vec![],
        },
        build_script_program_name: String::from("b"),
    })
}

#[test]
fn shown_units_are_chosen() {
    let units = || vec![unit("a", "1.0.0"), unit("b", "1.0.0"), unit("a", "2.0.0")];
    let all = ShowFilter { name: None, version: None };
    assert_eq!(all.select(units()).len(), 3);
    let named = ShowFilter { name: Some(String::from("a")), version: None };
    assert_eq!(named.select(units()).len(), 2);
    let one = ShowFilter {
        name: Some(String::from("a")),
        version: Some(String::from("2.0.0")),
    };
    let chosen = one.select(units());
    assert_eq!(chosen.len(), 1);
    assert!(one.matches(chosen[0].info()));
    assert_eq!(chosen[0].info().package_version, "2.0.0");
}

#[test]
fn daemons_start_and_stop() {
    let dir = AbsDirPath::new("/cache").unwrap();
    assert_eq!(log_file(&dir, 120).as_str(), "/cache/hurryd.120.log");
    let context = DaemonContext::new(&dir, 120, "127.0.0.1:8");
    assert_eq!(context.url, "127.0.0.1:8");
    assert_eq!(context.shutdown_endpoint(), "http://127.0.0.1:8/api/v0/shutdown");
    assert_eq!(may_start(false, true), Ok(()));
    assert!(may_start(true, true).is_err());
    assert!(may_start(false, false).is_err());
    assert_eq!(startup_step(9000, true), StartupStep::Ready);
    assert_eq!(startup_step(4999, false), StartupStep::Wait);
    assert_eq!(startup_step(5000, false), StartupStep::TimedOut);
    assert_eq!(stop_step(5000, true), StopStep::Wait);
    assert_eq!(stop_step(5000, false), StopStep::Stopped);
    assert_eq!(stop_step(5001, false), StopStep::TimedOut);
    assert_eq!(status_text(true), "running");
    assert_eq!(status_text(false), "stopped");
}

#[test]
fn stale_units_are_found() {
    assert_eq!(
        check_argv(&strings(&["-p", "x"])),
        vec!["-p", "x", "--message-format=json", "--verbose"]
    );
    assert_eq!(
        check_argv(&strings(&["--verbose", "--message-format=json"])),
        vec!["--verbose", "--message-format=json"]
    );
    let registry = "registry+https://github.com/rust-lang/crates.io-index#serde@1.0.0";
    let units = vec![
        UnitFreshness { package_id: String::from(registry), fresh: true },
        UnitFreshness { package_id: String::from("path+file:///work"), fresh: false },
        UnitFreshness { package_id: String::from(registry), fresh: false },
    ];
    let stale = stale_units(units);
    assert_eq!(stale.len(), 1);
    assert_eq!(stale[0].package_id, registry);
    assert!(!stale[0].fresh);
}

fn artifact(package_id: &str, fresh: bool) -> String {
    format!(
        "{{\"reason\":\"compiler-artifact\",\"package_id\":\"{package_id}\",\
\"manifest_path\":\"/a/Cargo.toml\",\"target\":{{\"kind\":[\"lib\"],\
\"crate_types\":[\"lib\"],\"name\":\"a\",\"src_path\":\"/a/lib.rs\",\
\"edition\":\"2021\",\"doc\":true,\"doctest\":true,\"test\":true}},\
\"profile\":{{\"opt_level\":\"0\",\"debuginfo\":2,\"debug_assertions\":true,\
\"overflow_checks\":true,\"test\":false}},\"features\":[],\"filenames\":[],\
\"executable\":null,\"fresh\":{fresh}}}"
    )
}

#[test]
fn what_cargo_printed_is_checked() {
    let registry = "registry+https://github.com/rust-lang/crates.io-index#serde@1.0.0";
    let other = "registry+https://github.com/rust-lang/crates.io-index#log@0.4.0";
    let output = [
        artifact(registry, true),
        artifact("path+file:///work#x@0.1.0", false),
        String::from("   Compiling x"),
        artifact(registry, false),
        String::from("{\"reason\":\"build-finished\",\"success\":true}"),
        artifact(other, false),
        String::from("{\"reason\":\"compiler-artifact\"}"),
        String::new(),
    ]
    .join("\n");
    let stale = check_output(&output.into_bytes()).unwrap();
    let packages: Vec<&str> = stale.iter().map(|u| u.package_id.as_str()).collect();
    assert_eq!(packages, vec![registry, other]);
    let fresh = artifact(registry, true).into_bytes();
    assert!(check_output(&fresh).unwrap().is_empty());
    assert!(check_output(&vec![]).unwrap().is_empty());
    assert_eq!(check_output(&vec![b'a', 0xff, b'\n']).unwrap_err(), CheckError::Unreadable);
}

#[test]
fn messages_count_when_they_are_on_units() {
    let unit = |fresh| UnitFreshness { package_id: String::from("a"), fresh };
    let units = artifacts(vec![None, Some(unit(true)), None, Some(unit(false))]);
    let fresh: Vec<bool> = units.iter().map(|u| u.fresh).collect();
    assert_eq!(fresh, vec![true, false]);
}

#[test]
fn nesting_is_counted_by_lines() {
    let nesting = |text: &str| nesting_of(&text.as_bytes().to_vec());
    assert_eq!(nesting(""), 0);
    assert_eq!(nesting("{\"a\":[1,{}],\"b\":[]}"), 3);
    assert_eq!(nesting("\"[[[\\\"[[\"[]"), 1);
    assert_eq!(nesting("\"\\\\\"[[]]"), 2);
    assert_eq!(nesting("[[\n[[\n"), 2);
    assert_eq!(nesting("]]][{"), 2);
}

#[test]
fn messages_that_are_nested_too_far() {
    let deep = |n: usize| {
        let registry = "registry+https://github.com/rust-lang/crates.io-index#serde@1.0.0";
        let start = "{\"reason\":\"compiler-artifact\",\"more\":";
        let nested = format!("{start}{}{}}}", "[".repeat(n - 1), "]".repeat(n - 1));
        format!("{nested}\n{}\n", artifact(registry, false)).into_bytes()
    };
    assert_eq!(nesting_of(&deep(MAX_NESTING)), MAX_NESTING);
    assert_eq!(check_output(&deep(MAX_NESTING)).unwrap().len(), 1);
    assert_eq!(check_output(&deep(MAX_NESTING + 1)).unwrap_err(), CheckError::TooDeep);
}

fn span(expansion: &str) -> String {
    format!(
        "{{\"file_name\":\"a.rs\",\"byte_start\":0,\"byte_end\":1,\"line_start\":1,\
\"line_end\":1,\"column_start\":1,\"column_end\":2,\"is_primary\":true,\"text\":[],\
\"label\":null,\"suggested_replacement\":null,\"suggestion_applicability\":null,\
\"expansion\":{expansion}}}"
    )
}

#[test]
fn expansions_may_be_nested() {
    let mut expansion = String::from("null");
    for _ in 0..250 {
        expansion = format!(
            "{{\"span\":{},\"macro_decl_name\":\"m!\",\"def_site_span\":{}}}",
            span(&expansion),
            span("null")
        );
    }
    let message = format!(
        "{{\"reason\":\"compiler-message\",\"package_id\":\"a\",\"manifest_path\":\"/a\",\
\"target\":{{\"kind\":[\"lib\"],\"crate_types\":[\"lib\"],\"name\":\"a\",\
\"src_path\":\"/a/lib.rs\",\"edition\":\"2021\"}},\"message\":{{\"message\":\"m\",\
\"code\":null,\"level\":\"error\",\"spans\":[{}],\"children\":[],\"rendered\":null}}}}\n",
        span(&expansion)
    )
    .into_bytes();
    assert!(nesting_of(&message) <= MAX_NESTING);
    assert!(nesting_of(&message) > 500);
    assert!(check_output(&message).unwrap().is_empty());
}

#[test]
fn idle_daemons_stop() {
    assert_eq!(idle_step(0), IdleStep::Sleep(60000));
    assert_eq!(idle_step(59999), IdleStep::Sleep(1));
    assert_eq!(idle_step(60000), IdleStep::Stop);
    assert_eq!(idle_step(u64::MAX), IdleStep::Stop);
}

#[test]
fn directories_are_listed() {
    let file = |p: &str| AbsFilePath::new(p).unwrap();
    let sorted = sort_files(vec![file("/a/b.rs"), file("/a/b/c"), file("/a"), file("/a/b")]);
    let texts: Vec<&str> = sorted.iter().map(|f| f.as_str()).collect();
    assert_eq!(texts, vec!["/a", "/a/b", "/a/b/c", "/a/b.rs"]);
    let root = AbsDirPath::new("/a").unwrap();
    assert_eq!(
        listing(&root, &file("/a/b/c")),
        Ok((String::from("  "), String::from("c")))
    );
    assert_eq!(listing(&root, &file("/a/x")), Ok((String::new(), String::from("x"))));
    assert_eq!(listing(&root, &file("/b")), Err(ListingError::OutsideRoot));
    assert_eq!(listing(&root, &file("/a/..")), Err(ListingError::NoName));
}

#[test]
fn compiler_calls_are_taken_down() {
    let env = pairs(&[("PATH", "/bin"), ("CARGO_X", "1"), ("OUT_DIR", "/o")]);
    assert_eq!(recorded_env(&env), pairs(&[("CARGO_X", "1"), ("OUT_DIR", "/o")]));
    let log = |id: Option<&str>, dir: Option<&str>| {
        wrapper::log_file(id.map(String::from), dir.map(String::from), "7")
    };
    assert_eq!(log(Some("i"), Some("/d")).unwrap().as_str(), "/d/i/7.json");
    assert_eq!(log(None, Some("/d")).unwrap_err(), WrapperError::NoInvocationId);
    assert_eq!(log(Some("i"), None).unwrap_err(), WrapperError::NoLogDir);
    assert_eq!(log(Some("i"), Some("d")).unwrap_err(), WrapperError::LogDirNotAbsolute);
    assert_eq!(log(Some("/i"), Some("/d")).unwrap_err(), WrapperError::InvalidInvocationId);
    let call = compiler_call(&strings(&[WRAPPER_NAME, "rustc", "-v"])).unwrap();
    assert_eq!((call.compiler.as_str(), call.other_name), ("rustc", false));
    assert_eq!(call.args, vec!["-v"]);
    assert!(compiler_call(&strings(&["x", "rustc"])).unwrap().other_name);
    assert_eq!(compiler_call(&vec![]).unwrap_err(), WrapperError::NoWrapper);
    assert_eq!(compiler_call(&strings(&["x"])).unwrap_err(), WrapperError::NoCompiler);
    let ended = |success, code| exit_code(Some(CompilerStatus { success, code }));
    assert_eq!(ended(true, Some(0)), 0);
    assert_eq!(ended(false, Some(101)), 101);
    assert_eq!(ended(false, Some(256)), 1);
    assert_eq!(ended(false, None), 1);
    assert_eq!(exit_code(None), 1);
}
