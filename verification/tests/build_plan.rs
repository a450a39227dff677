use hurry::cargo::build_args::CargoBuildArguments;
use hurry::cargo::build_plan::{BuildPlan, BuildPlanInvocation, PlanError, TargetKind};
use hurry::cargo::dependency::Dependency;
use hurry::cargo::profile::Profile;
use hurry::cargo::rustc::{RustcArguments, RustcTarget, RustcTargetPlatform};
use hurry::cargo::unit_graph::CargoCompileMode;
use hurry::cargo::workspace::{
    first_plan, plan_candidates, DirAction, UnitPlan, Workspace, WorkspaceError, WorkspaceFacts,
};
use hurry::path::AbsDirPath;

fn workspace() -> Workspace {
    Workspace {
        root: AbsDirPath::new("/work").unwrap(),
        build_dir: AbsDirPath::new("/work/target").unwrap(),
        cargo_home: AbsDirPath::new("/home/.cargo").unwrap(),
        profile: Profile::debug(),
        target_arch: RustcTarget::ImplicitHost,
        host_arch: RustcTargetPlatform::new("x86_64-unknown-linux-gnu").unwrap(),
    }
}

fn strings(list: &[&str]) -> Vec<String> {
    list.iter().map(|s| String::from(*s)).collect()
}

fn pairs(list: &[(&str, &str)]) -> Vec<(String, String)> {
    list.iter().map(|(a, b)| (String::from(*a), String::from(*b))).collect()
}

fn library(deps: Vec<usize>) -> BuildPlanInvocation {
    BuildPlanInvocation {
        package_name: String::from("my-lib"),
        package_version: String::from("1.2.3"),
        target_kind: vec![TargetKind::Lib],
        target_arch: RustcTarget::ImplicitHost,
        compile_mode: CargoCompileMode::Build,
        deps,
        outputs: strings(&[
            "/work/target/debug/deps/libmy_lib-aa11.rlib",
            "/work/target/debug/deps/libmy_lib-aa11.rmeta",
            "/work/target/debug/deps/libmy_lib-aa11.dwp",
        ]),
        links: vec![],
        program: String::from("rustc"),
        args: RustcArguments {
            argv: strings(&["--crate-name", "my_lib", "--edition=2021", "/home/.cargo/my-lib/src/lib.rs"]),
        },
        env: vec![],
        cwd: String::from("/home/.cargo/my-lib"),
    }
}

fn compiled_script() -> BuildPlanInvocation {
    let mut inv = library(vec![]);
    inv.target_kind = vec![TargetKind::CustomBuild];
    inv.outputs = strings(&["/work/target/debug/build/my-lib-bb22/build_script_build-bb22"]);
    inv.links = pairs(&[(
        "/work/target/debug/build/my-lib-bb22/build-script-build",
        "/work/target/debug/build/my-lib-bb22/build_script_build-bb22",
    )]);
    inv.args.argv = strings(&["--crate-name", "build_script_build", "/home/.cargo/my-lib/build.rs"]);
    inv
}

fn run_script() -> BuildPlanInvocation {
    let mut inv = library(vec![0]);
    inv.target_kind = vec![TargetKind::CustomBuild];
    inv.compile_mode = CargoCompileMode::RunCustomBuild;
    inv.program = String::from("/work/target/debug/build/my-lib-bb22/build-script-build");
    inv.env = pairs(&[("OUT_DIR", "/work/target/debug/build/my-lib-cc33/out")]);
    inv
}

fn plan(invocations: Vec<BuildPlanInvocation>) -> BuildPlan {
    BuildPlan { invocations, inputs: vec![] }
}

fn units(invocations: Vec<BuildPlanInvocation>) -> Result<Vec<UnitPlan>, PlanError> {
    workspace().units_from_build_plan(&plan(invocations))
}

fn error(inv: BuildPlanInvocation) -> PlanError {
    units(vec![inv]).unwrap_err()
}

#[test]
fn units_of_a_plan() {
    let us = units(vec![compiled_script(), run_script(), library(vec![1])]).unwrap();
    assert_eq!(us.len(), 3);
    let hashes: Vec<&str> = us.iter().map(|u| u.info().unit_hash.text.as_str()).collect();
    assert_eq!(hashes, vec!["bb22", "cc33", "aa11"]);
    match &us[0] {
        UnitPlan::BuildScriptCompilation(p) => {
            assert_eq!(p.src_path.as_str(), "/home/.cargo/my-lib/build.rs");
            assert_eq!(p.info.crate_name, "build_script_build");
        }
        _ => panic!("a build script is compiled"),
    }
    match &us[1] {
        UnitPlan::BuildScriptExecution(p) => {
            assert_eq!(p.build_script_program_name, "build-script-build");
            assert_eq!(p.info.crate_name, "build_script_build");
            assert_eq!(p.info.deps, vec![0]);
            assert_eq!(p.info.dep_hashes[0].text, "bb22");
        }
        _ => panic!("a build script is run"),
    }
    match &us[2] {
        UnitPlan::LibraryCrate(p) => {
            assert_eq!(p.outputs.len(), 2);
            assert_eq!(p.info.package_version, "1.2.3");
            assert_eq!(p.info.dep_hashes[0].text, "cc33");
        }
        _ => panic!("a library is compiled"),
    }
}

#[test]
fn what_belongs_to_the_workspace_is_left_out() {
    let mut primary = library(vec![]);
    primary.env = pairs(&[("CARGO_PRIMARY_PACKAGE", "1")]);
    let mut outside = library(vec![]);
    outside.cwd = String::from("/work");
    let mut binary = library(vec![]);
    binary.target_kind = vec![TargetKind::Bin];
    let us = units(vec![primary, outside, binary, library(vec![0, 1, 2])]).unwrap();
    assert_eq!(us.len(), 1);
    assert!(us[0].info().dep_hashes.is_empty());
    assert_eq!(us[0].info().deps, vec![0, 1, 2]);
}

#[test]
fn plans_that_cannot_be_read() {
    let change = |f: fn(&mut BuildPlanInvocation)| {
        let mut inv = library(vec![]);
        f(&mut inv);
        error(inv)
    };
    assert_eq!(change(|i| i.cwd = String::from("x")), PlanError::CwdNotAbsolute);
    assert_eq!(change(|i| i.compile_mode = CargoCompileMode::Check), PlanError::DependencyMode);
    assert_eq!(change(|i| i.outputs = strings(&["x"])), PlanError::OutputNotAbsolute);
    assert_eq!(change(|i| i.args.argv = strings(&["/a.rs"])), PlanError::NoCrateName);
    assert_eq!(
        change(|i| i.args.argv = strings(&["--crate-name", "a"])),
        PlanError::NoSourceFile
    );
    assert_eq!(
        change(|i| i.args.argv = strings(&["--crate-name", "a", "a.rs"])),
        PlanError::SourceNotAbsolute
    );
    assert_eq!(change(|i| i.outputs = vec![]), PlanError::NoOutputs);
    assert_eq!(change(|i| i.outputs = strings(&["/"])), PlanError::OutputNoName);
    assert_eq!(change(|i| i.outputs = strings(&["/a-1"])), PlanError::OutputNoExtension);
    assert_eq!(change(|i| i.outputs = strings(&["/a.rlib"])), PlanError::OutputNoHash);
    assert_eq!(change(|i| i.target_kind = vec![TargetKind::Example]), PlanError::TargetKind);
}

#[test]
fn build_scripts_that_cannot_be_read() {
    let change = |f: fn(&mut BuildPlanInvocation)| {
        let mut inv = compiled_script();
        f(&mut inv);
        error(inv)
    };
    assert_eq!(change(|i| i.outputs = vec![]), PlanError::OutputCount);
    assert_eq!(change(|i| i.outputs = strings(&["a-1"])), PlanError::OutputNotAbsolute);
    assert_eq!(change(|i| i.links = vec![]), PlanError::LinkCount);
    assert_eq!(change(|i| i.links = pairs(&[("a", "b")])), PlanError::LinkNotAbsolute);
    assert_eq!(change(|i| i.outputs = strings(&["/"])), PlanError::ProgramNoName);
    assert_eq!(change(|i| i.outputs = strings(&["/program"])), PlanError::ProgramNoHash);
    assert_eq!(
        change(|i| {
            i.target_arch = RustcTarget::Specified(RustcTargetPlatform::new("wasm32").unwrap())
        }),
        PlanError::SpecifiedTarget
    );
    assert_eq!(change(|i| i.outputs = strings(&["/x/a-1"])), PlanError::OutsideProfileDir);
    assert_eq!(
        change(|i| i.outputs = strings(&["/work/target/debug/build/a-1"])),
        PlanError::ProgramMismatch
    );
    assert_eq!(
        change(|i| i.links = pairs(&[("/work/target/debug/build/a", "")])),
        PlanError::LinkMismatch
    );
    assert_eq!(change(|i| i.compile_mode = CargoCompileMode::Test), PlanError::BuildScriptMode);

    let change = |f: fn(&mut BuildPlanInvocation)| {
        let mut inv = run_script();
        f(&mut inv);
        error(inv)
    };
    assert_eq!(change(|i| i.program = String::from("x")), PlanError::ProgramNotAbsolute);
    assert_eq!(change(|i| i.env = vec![]), PlanError::NoOutDir);
    assert_eq!(change(|i| i.env = pairs(&[("OUT_DIR", "x")])), PlanError::OutDirNotAbsolute);
    assert_eq!(change(|i| i.env = pairs(&[("OUT_DIR", "/")])), PlanError::OutDirNoParent);
    assert_eq!(change(|i| i.env = pairs(&[("OUT_DIR", "/x")])), PlanError::UnitDirNoName);
    assert_eq!(change(|i| i.env = pairs(&[("OUT_DIR", "/a/x")])), PlanError::UnitDirNoHash);
    assert_eq!(
        change(|i| i.env = pairs(&[("OUT_DIR", "/work/target/debug/build/other-1/out")])),
        PlanError::OutDirMismatch
    );
}

#[test]
fn kinds_and_modes_by_name() {
    assert!(matches!(TargetKind::from_name("proc-macro"), TargetKind::ProcMacro));
    assert!(matches!(TargetKind::from_name("new"), TargetKind::Unknown(n) if n == "new"));
    assert_eq!(
        CargoCompileMode::from_name("run-custom-build"),
        Some(CargoCompileMode::RunCustomBuild)
    );
    assert_eq!(CargoCompileMode::from_name("Run"), None);
}

fn args(list: &[&str]) -> CargoBuildArguments {
    CargoBuildArguments { argv: strings(list) }
}

#[test]
fn arguments_of_builds() {
    assert_eq!(args(&[]).profile(), None);
    assert_eq!(args(&["--release"]).profile().unwrap(), "release");
    assert_eq!(args(&["-r"]).profile().unwrap(), "release");
    assert_eq!(args(&["--release", "--profile", "bench"]).profile().unwrap(), "bench");
    assert_eq!(args(&["--profile=x"]).profile().unwrap(), "x");
    assert_eq!(args(&["--target", "wasm32"]).target().unwrap(), "wasm32");
    assert_eq!(args(&["--target"]).target(), None);
    assert_eq!(args(&["--manifest-path=a/Cargo.toml"]).manifest_path().unwrap(), "a/Cargo.toml");
    assert_eq!(
        args(&["--release"]).build_plan_argv(),
        vec!["--release", "--build-plan", "-Z", "unstable-options"]
    );
    let plan = CargoBuildArguments { argv: args(&["--release"]).build_plan_argv() };
    assert_eq!(plan.profile().unwrap(), "release");
}

fn facts() -> WorkspaceFacts {
    WorkspaceFacts {
        workspace_root: String::from("/work"),
        target_directory: String::from("/work/target"),
        cargo_home: String::from("/home/.cargo"),
        host_known: true,
        host_output: Some(String::from("x86_64-unknown-linux-gnu\n")),
    }
}

#[test]
fn workspaces_are_opened() {
    let ws = Workspace::from_argv_in_dir(&facts(), &args(&["--release", "--target=wasm32-wasip1"]));
    let ws = ws.unwrap();
    assert_eq!(ws.root.as_str(), "/work");
    assert_eq!(ws.cargo_home.as_str(), "/home/.cargo");
    assert_eq!(ws.host_arch.as_str(), "x86_64-unknown-linux-gnu");
    assert_eq!(
        ws.arch_profile_dir(&ws.target_arch).as_str(),
        "/work/target/wasm32-wasip1/release"
    );
    let ws = Workspace::from_argv_in_dir(&facts(), &args(&[])).unwrap();
    assert_eq!(ws.arch_profile_dir(&ws.target_arch).as_str(), "/work/target/debug");
}

#[test]
fn workspaces_that_cannot_be_opened() {
    let change = |f: fn(&mut WorkspaceFacts)| {
        let mut facts = facts();
        f(&mut facts);
        Workspace::from_argv_in_dir(&facts, &args(&[])).unwrap_err()
    };
    assert_eq!(
        change(|f| f.workspace_root = String::from("w")),
        WorkspaceError::RootNotAbsolute
    );
    assert_eq!(
        change(|f| f.target_directory = String::new()),
        WorkspaceError::BuildDirNotAbsolute
    );
    assert_eq!(
        change(|f| f.cargo_home = String::from(".cargo")),
        WorkspaceError::CargoHomeNotAbsolute
    );
    assert_eq!(change(|f| f.host_known = false), WorkspaceError::HostUnknown);
    assert_eq!(change(|f| f.host_output = None), WorkspaceError::HostNotText);
    assert_eq!(
        change(|f| f.host_output = Some(String::from(" /x"))),
        WorkspaceError::HostName
    );
    let open = |list: &[&str]| Workspace::from_argv_in_dir(&facts(), &args(list)).unwrap_err();
    assert_eq!(open(&["--profile=/x"]), WorkspaceError::ProfileName);
    assert_eq!(open(&["--target=/x"]), WorkspaceError::TargetName);
}

#[test]
fn the_build_directory_is_put_back() {
    let ws = workspace();
    assert!(ws.backup_dir(false, "7").is_none());
    let backup = ws.backup_dir(true, "7").unwrap();
    assert_eq!(backup.as_str(), "/work/target.backup.7");
    let actions = ws.restore_build_dir(true, Some(backup));
    assert_eq!(actions.len(), 2);
    assert!(matches!(&actions[0], DirAction::Remove { dir } if dir.as_str() == "/work/target"));
    assert!(matches!(
        &actions[1],
        DirAction::Rename { from, to }
            if from.as_str() == "/work/target.backup.7" && to.as_str() == "/work/target"
    ));
    let actions = ws.restore_build_dir(false, None);
    assert_eq!(actions.len(), 1);
    assert!(matches!(&actions[0], DirAction::Remove { dir } if dir.as_str() == "/work/target"));
}

#[test]
fn a_build_directory_that_cannot_be_moved_stays() {
    assert_eq!(workspace().restore_build_dir(true, None).len(), 0);
}

#[test]
fn plans_among_other_lines() {
    let stdout = "{\"reason\":\"x\"}\n\n  \r\n{\"invocations\":[],\"inputs\":[]}\n";
    assert_eq!(
        plan_candidates(stdout),
        vec!["{\"reason\":\"x\"}", "{\"invocations\":[],\"inputs\":[]}"]
    );
}

#[test]
fn the_first_plan_counts() {
    let named = |name: &str| BuildPlan { invocations: vec![], inputs: strings(&[name]) };
    let found = first_plan(vec![None, Some(named("a")), None, Some(named("b"))]).unwrap();
    assert_eq!(found.inputs, vec!["a"]);
    assert!(first_plan(vec![None, None]).is_none());
    assert!(first_plan(vec![]).is_none());
}

#[test]
fn dependencies_by_name() {
    let d = Dependency {
        package_name: String::from("xml-rs"),
        lib_name: String::from("xml"),
        version: String::from("0.8.0"),
    };
    assert_eq!(d.display(), "xml-rs@0.8.0");
}
