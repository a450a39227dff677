//! Workspaces and the units of a build.

use vstd::prelude::*;
use vstd::string::*;

use crate::cargo::build_args;
use crate::cargo::build_args::CargoBuildArguments;
use crate::cargo::build_plan::BuildPlan;
use crate::cargo::profile::Profile;
use crate::cargo::rustc::{RustcTarget, RustcTargetPlatform};
use crate::cargo::units;
use crate::cargo::units::build_script_compilation;
use crate::cargo::units::build_script_compilation::BuildScriptCompilationUnitPlan;
use crate::cargo::units::build_script_execution;
use crate::cargo::units::build_script_execution::BuildScriptExecutionUnitPlan;
use crate::cargo::units::library_crate;
use crate::cargo::units::library_crate::LibraryCrateUnitPlan;
use crate::cargo::units::{TouchPlan, UnitFileError};
use crate::path;
use crate::path::{AbsDirPath, AbsFilePath, PathError, RelDirPath, RelFilePath};
use crate::text;

verus! {

/// The Cargo workspace of a build: all that is needed to tell where the files of
/// the build are.
#[derive(Debug)]
pub struct Workspace {
    /// The root directory of the workspace.
    pub root: AbsDirPath,
    /// The build directory, usually `target`.
    pub build_dir: AbsDirPath,
    /// The value of `$CARGO_HOME`.
    pub cargo_home: AbsDirPath,
    /// The profile of the build.
    pub profile: Profile,
    /// The platform given with `--target`.
    pub target_arch: RustcTarget,
    /// The platform of the host.
    pub host_arch: RustcTargetPlatform,
}

impl Clone for Workspace {
    fn clone(&self) -> (r: Self)
        ensures
            r == *self,
    {
        Workspace {
            root: self.root.clone(),
            build_dir: self.build_dir.clone(),
            cargo_home: self.cargo_home.clone(),
            profile: self.profile.clone(),
            target_arch: self.target_arch.clone(),
            host_arch: self.host_arch.clone(),
        }
    }
}

/// The directory for the artifacts of one platform.
pub open spec fn profile_dir_of(
    build_dir: Seq<char>,
    profile: Seq<char>,
    target: Option<Seq<char>>,
) -> Seq<char> {
    match target {
        Some(triple) => path::join(path::join(build_dir, triple), profile),
        None => path::join(build_dir, profile),
    }
}

impl Workspace {
    /// The directory for the artifacts of one platform.
    pub open spec fn spec_arch_profile_dir(&self, target: Option<Seq<char>>) -> Seq<char> {
        profile_dir_of(self.build_dir@, self.profile@, target)
    }

    /// The directory for the artifacts of a unit.
    ///
    /// When a platform is given, Cargo puts what is built for it below a directory
    /// named after the platform, and what is built for the host beside that. A
    /// unit carries the platform that it is built for, so that a build script is
    /// compiled for the host and run for the target.
    pub fn unit_profile_dir(&self, unit_info: &UnitPlanInfo) -> (r: AbsDirPath)
        ensures
            r@ == self.spec_arch_profile_dir(unit_info.target_arch@),
    {
        self.arch_profile_dir(&unit_info.target_arch)
    }

    /// The directory for the artifacts of one platform.
    pub fn arch_profile_dir(&self, target_arch: &RustcTarget) -> (r: AbsDirPath)
        ensures
            r@ == self.spec_arch_profile_dir(target_arch@),
    {
        let profile = RelDirPath::known(self.profile.as_str());
        match target_arch {
            RustcTarget::Specified(platform) => {
                self.build_dir.join_dir(&RelDirPath::known(platform.as_str())).join_dir(&profile)
            },
            RustcTarget::ImplicitHost => self.build_dir.join_dir(&profile),
        }
    }
}

/// What Cargo and the environment say about a workspace.
#[derive(Debug)]
pub struct WorkspaceFacts {
    /// The root directory, as `cargo metadata` gives it.
    pub workspace_root: String,
    /// The build directory, as `cargo metadata` gives it.
    pub target_directory: String,
    /// The value of `$CARGO_HOME`.
    pub cargo_home: String,
    /// Whether the compiler could be asked for the platform of the host.
    pub host_known: bool,
    /// What the compiler printed of the host, where that is text.
    pub host_output: Option<String>,
}

/// Why a workspace cannot be opened.
#[derive(Debug, Clone, Copy, PartialEq, Eq, Structural)]
pub enum WorkspaceError {
    /// The root directory is not absolute.
    RootNotAbsolute,
    /// The build directory is not absolute.
    BuildDirNotAbsolute,
    /// `$CARGO_HOME` is not absolute.
    CargoHomeNotAbsolute,
    /// The compiler does not tell the platform of the host.
    HostUnknown,
    /// What the compiler printed of the host is no text.
    HostNotText,
    /// The platform of the host cannot name a directory.
    HostName,
    /// The profile cannot name a directory.
    ProfileName,
    /// The platform of the build cannot name a directory.
    TargetName,
}

/// Why a workspace cannot be opened, if it cannot.
pub open spec fn opening_error(facts: WorkspaceFacts, argv: Seq<Seq<char>>) -> Option<
    WorkspaceError,
> {
    let profile = build_args::profile_of(argv);
    let target = build_args::option_value(argv, "--target"@);
    if !path::is_abs(facts.workspace_root@) {
        Some(WorkspaceError::RootNotAbsolute)
    } else if !path::is_abs(facts.target_directory@) {
        Some(WorkspaceError::BuildDirNotAbsolute)
    } else if !path::is_abs(facts.cargo_home@) {
        Some(WorkspaceError::CargoHomeNotAbsolute)
    } else if !facts.host_known {
        Some(WorkspaceError::HostUnknown)
    } else if facts.host_output is None {
        Some(WorkspaceError::HostNotText)
    } else if path::is_abs(text::trimmed(facts.host_output->0@)) {
        Some(WorkspaceError::HostName)
    } else if profile is Some && path::is_abs(profile->0) {
        Some(WorkspaceError::ProfileName)
    } else if target is Some && path::is_abs(target->0) {
        Some(WorkspaceError::TargetName)
    } else {
        None
    }
}

/// The profile of a build that asks for one, or for none.
pub open spec fn opened_profile(argv: Seq<Seq<char>>) -> Seq<char> {
    match build_args::profile_of(argv) {
        Some(name) => name,
        None => "debug"@,
    }
}

impl Workspace {
    /// Opens the workspace of a build. A build that asks for no profile is a debug
    /// build.
    pub fn from_argv_in_dir(facts: &WorkspaceFacts, args: &CargoBuildArguments) -> (r: Result<
        Workspace,
        WorkspaceError,
    >)
        ensures
            r matches Ok(ws) ==> ws.profile@ == opened_profile(args@),
            match r {
                Ok(ws) => {
                    &&& opening_error(*facts, args@) is None
                    &&& ws.root@ == facts.workspace_root@
                    &&& ws.build_dir@ == facts.target_directory@
                    &&& ws.cargo_home@ == facts.cargo_home@
                    &&& ws.host_arch@ == text::trimmed(facts.host_output->0@)
                    &&& ws.profile@ == (match build_args::profile_of(args@) {
                        Some(name) => name,
                        None => "debug"@,
                    })
                    &&& ws.target_arch@ == build_args::option_value(args@, "--target"@)
                },
                Err(e) => opening_error(*facts, args@) == Some(e),
            },
    {
        let root = match AbsDirPath::new(facts.workspace_root.as_str()) {
            Ok(d) => d,
            Err(_) => {
                return Err(WorkspaceError::RootNotAbsolute);
            },
        };
        let build_dir = match AbsDirPath::new(facts.target_directory.as_str()) {
            Ok(d) => d,
            Err(_) => {
                return Err(WorkspaceError::BuildDirNotAbsolute);
            },
        };
        let cargo_home = match AbsDirPath::new(facts.cargo_home.as_str()) {
            Ok(d) => d,
            Err(_) => {
                return Err(WorkspaceError::CargoHomeNotAbsolute);
            },
        };
        if !facts.host_known {
            return Err(WorkspaceError::HostUnknown);
        }
        let output: &String = match &facts.host_output {
            Some(o) => o,
            None => {
                return Err(WorkspaceError::HostNotText);
            },
        };
        let triple = text::trim(output.as_str());
        let host_arch = match RustcTargetPlatform::new(triple.as_str()) {
            Ok(p) => p,
            Err(_) => {
                return Err(WorkspaceError::HostName);
            },
        };
        let profile = match args.profile() {
            None => Profile::debug(),
            Some(name) => match Profile::new(name.as_str()) {
                Ok(p) => p,
                Err(_) => {
                    return Err(WorkspaceError::ProfileName);
                },
            },
        };
        let target_arch = match args.target() {
            None => RustcTarget::ImplicitHost,
            Some(name) => match RustcTargetPlatform::new(name.as_str()) {
                Ok(p) => RustcTarget::Specified(p),
                Err(_) => {
                    return Err(WorkspaceError::TargetName);
                },
            },
        };
        Ok(Workspace { root, build_dir, cargo_home, profile, target_arch, host_arch })
    }
}

/// A change to a directory.
#[derive(Debug)]
pub enum DirAction {
    /// Remove a directory with all that it holds.
    Remove { dir: AbsDirPath },
    /// Give a directory another name.
    Rename { from: AbsDirPath, to: AbsDirPath },
}

/// What directories hold after a change, where each is known by its path.
pub open spec fn after_action(dirs: Map<Seq<char>, nat>, action: DirAction) -> Map<
    Seq<char>,
    nat,
> {
    match action {
        DirAction::Remove { dir } => dirs.remove(dir@),
        DirAction::Rename { from, to } => dirs.insert(to@, dirs[from@]).remove(from@),
    }
}

/// What directories hold after some changes in a row.
pub open spec fn after_actions(dirs: Map<Seq<char>, nat>, actions: Seq<DirAction>) -> Map<
    Seq<char>,
    nat,
>
    decreases actions.len(),
{
    if actions.len() == 0 {
        dirs
    } else {
        after_action(after_actions(dirs, actions.drop_last()), actions.last())
    }
}

/// The name under which the build directory is kept while Cargo prints its plan.
pub open spec fn backup_of(root: Seq<char>, id: Seq<char>) -> Seq<char> {
    path::join(root, "target.backup."@ + id)
}

impl Workspace {
    /// Where to move the build directory while Cargo prints the plan of a build:
    /// printing the plan resets it. Nothing is moved where there is none.
    pub fn backup_dir(&self, exists: bool, id: &str) -> (r: Option<AbsDirPath>)
        ensures
            match r {
                Some(d) => exists && d@ == backup_of(self.root@, id@),
                None => !exists,
            },
    {
        if !exists {
            return None;
        }
        proof {
            reveal_strlit("target.backup.");
        }
        let name = text::concat("target.backup.", id);
        Some(self.root.join_dir(&RelDirPath::known(name.as_str())))
    }

    /// What is done with the build directory once Cargo has printed the plan of a
    /// build, given whether it existed before and where it was moved, if that was
    /// possible: what was moved is moved back, and what only the plan has made is
    /// removed. A directory that existed and could not be moved stays, with what the
    /// plan has made of it.
    pub fn restore_build_dir(&self, existed: bool, renamed: Option<AbsDirPath>) -> (r: Vec<
        DirAction,
    >)
        ensures
            match renamed {
                Some(temp) => {
                    &&& r@.len() == 2
                    &&& r@[0] matches DirAction::Remove { dir } && dir@ == self.build_dir@
                    &&& r@[1] matches DirAction::Rename { from, to } && from@ == temp@ && to@
                        == self.build_dir@
                },
                None if existed => r@.len() == 0,
                None => {
                    &&& r@.len() == 1
                    &&& r@[0] matches DirAction::Remove { dir } && dir@ == self.build_dir@
                },
            },
    {
        let mut r: Vec<DirAction> = Vec::new();
        if let Some(temp) = renamed {
            r.push(DirAction::Remove { dir: self.build_dir.clone() });
            r.push(DirAction::Rename { from: temp, to: self.build_dir.clone() });
        } else if !existed {
            r.push(DirAction::Remove { dir: self.build_dir.clone() });
        }
        r
    }
}

/// Printing the plan of a build changes no directory, whatever Cargo made of the
/// build directory in the meantime: the directories hold what they held before. The
/// one exception is a build directory that existed and could not be renamed. Its plan
/// is printed in place, and it is not removed: it holds what Cargo made of it.
pub proof fn law_build_dir_is_put_back(
    dirs: Map<Seq<char>, nat>,
    build_dir: Seq<char>,
    backup: Seq<char>,
    renamed: bool,
    made: nat,
    actions: Seq<DirAction>,
)
    requires
        build_dir != backup,
        !dirs.dom().contains(backup),
        renamed ==> dirs.dom().contains(build_dir),
        renamed ==> {
            &&& actions.len() == 2
            &&& actions[0] matches DirAction::Remove { dir } && dir@ == build_dir
            &&& actions[1] matches DirAction::Rename { from, to } && from@ == backup && to@
                == build_dir
        },
        !renamed && dirs.dom().contains(build_dir) ==> actions.len() == 0,
        !dirs.dom().contains(build_dir) ==> {
            &&& actions.len() == 1
            &&& actions[0] matches DirAction::Remove { dir } && dir@ == build_dir
        },
    ensures
        ({
            let moved = if renamed {
                dirs.insert(backup, dirs[build_dir]).remove(build_dir)
            } else {
                dirs
            };
            after_actions(moved.insert(build_dir, made), actions) == if !renamed
                && dirs.dom().contains(build_dir) {
                dirs.insert(build_dir, made)
            } else {
                dirs
            }
        }),
{
    let moved = if renamed {
        dirs.insert(backup, dirs[build_dir]).remove(build_dir)
    } else {
        dirs
    };
    let start = moved.insert(build_dir, made);
    reveal_with_fuel(after_actions, 3);
    if renamed {
        assert(actions.drop_last().last() == actions[0]);
    }
    if renamed || !dirs.dom().contains(build_dir) {
        assert(after_actions(start, actions) =~= dirs);
    }
}

/// The lines that are not blank, in order.
pub open spec fn filled_lines(lines: Seq<Seq<char>>) -> Seq<Seq<char>>
    decreases lines.len(),
{
    if lines.len() == 0 {
        Seq::empty()
    } else {
        let before = filled_lines(lines.drop_last());
        if text::trimmed(lines.last()).len() == 0 {
            before
        } else {
            before.push(lines.last())
        }
    }
}

/// The lines of what Cargo printed that can hold a build plan, in the order in which
/// they are tried. With some message formats, the plan is one line of many.
pub fn plan_candidates(stdout: &str) -> (r: Vec<String>)
    ensures
        text::views(r@) == filled_lines(text::lines_of(stdout@)),
{
    let lines: Vec<String> = text::lines(stdout);
    let ghost all = text::views(lines@);
    let mut r: Vec<String> = Vec::new();
    let mut i: usize = 0;
    assert(text::views(r@) =~= filled_lines(all.take(0)));
    while i < lines.len()
        invariant
            i <= lines.len(),
            all == text::views(lines@),
            text::views(r@) == filled_lines(all.take(i as int)),
        decreases lines.len() - i,
    {
        let ghost before = text::views(r@);
        proof {
            assert(all.take(i + 1).drop_last() =~= all.take(i as int));
            assert(all.take(i + 1).last() == lines@[i as int]@);
        }
        if text::trim(lines[i].as_str()).as_str().unicode_len() > 0 {
            r.push(lines[i].clone());
            assert(text::views(r@) =~= before.push(lines@[i as int]@));
        }
        i += 1;
    }
    assert(all.take(lines.len() as int) =~= all);
    r
}

/// The build plan among the lines that were tried as one, in order: the first that is.
pub fn first_plan(parsed: Vec<Option<BuildPlan>>) -> (r: Option<BuildPlan>)
    ensures
        match r {
            Some(plan) => exists|i: int|
                0 <= i < parsed@.len() && #[trigger] parsed@[i] == Some(plan) && forall|j: int|
                    0 <= j < i ==> #[trigger] parsed@[j] is None,
            None => forall|j: int| 0 <= j < parsed@.len() ==> #[trigger] parsed@[j] is None,
        },
{
    let ghost all = parsed@;
    let mut rest: Vec<Option<BuildPlan>> = parsed;
    let ghost mut n: int = 0;
    assert(all.skip(0) =~= all);
    while rest.len() > 0
        invariant
            0 <= n <= all.len(),
            all == parsed@,
            rest@ == all.skip(n),
            forall|j: int| 0 <= j < n ==> #[trigger] all[j] is None,
        decreases rest.len(),
    {
        let first = rest.remove(0);
        assert(first == all[n]);
        assert(rest@ =~= all.skip(n + 1));
        if first.is_some() {
            return first;
        }
        proof {
            n = n + 1;
        }
    }
    None
}

/// The hash by which Cargo tells units apart.
#[derive(Debug)]
pub struct UnitHash {
    pub text: String,
}

impl View for UnitHash {
    type V = Seq<char>;

    open spec fn view(&self) -> Seq<char> {
        self.text@
    }
}

impl Clone for UnitHash {
    fn clone(&self) -> (r: Self)
        ensures
            r == *self,
    {
        UnitHash { text: self.text.clone() }
    }
}

/// The views of a sequence of unit hashes.
pub open spec fn hash_views(v: Seq<UnitHash>) -> Seq<Seq<char>> {
    Seq::new(v.len(), |i: int| v[i]@)
}

/// A copy of a list of unit hashes.
pub fn copy_hashes(list: &Vec<UnitHash>) -> (r: Vec<UnitHash>)
    ensures
        r@ == list@,
{
    let mut r: Vec<UnitHash> = Vec::new();
    let mut i: usize = 0;
    while i < list.len()
        invariant
            i <= list.len(),
            r@ == list@.take(i as int),
        decreases list.len() - i,
    {
        r.push(list[i].clone());
        assert(r@ =~= list@.take(i + 1));
        i += 1;
    }
    assert(r@ =~= list@);
    r
}

/// What the plans of all kinds of units have in common.
#[derive(Debug)]
pub struct UnitPlanInfo {
    /// The hash of the unit, which is part of the names of its directories.
    pub unit_hash: UnitHash,
    /// The package of the unit.
    pub package_name: String,
    /// The version of the package.
    pub package_version: String,
    /// The crate that the unit compiles.
    pub crate_name: String,
    /// The platform that the unit is built for.
    pub target_arch: RustcTarget,
    /// The dependencies of the unit, as positions in the build plan.
    pub deps: Vec<u32>,
    /// The hashes of those dependencies that are units themselves.
    pub dep_hashes: Vec<UnitHash>,
}

/// A [`UnitPlanInfo`] in terms of characters and sequences.
#[verifier::ext_equal]
pub struct UnitPlanInfoView {
    pub unit_hash: Seq<char>,
    pub package_name: Seq<char>,
    pub package_version: Seq<char>,
    pub crate_name: Seq<char>,
    pub target_arch: Option<Seq<char>>,
    pub deps: Seq<u32>,
    pub dep_hashes: Seq<Seq<char>>,
}

impl View for UnitPlanInfo {
    type V = UnitPlanInfoView;

    open spec fn view(&self) -> UnitPlanInfoView {
        UnitPlanInfoView {
            unit_hash: self.unit_hash@,
            package_name: self.package_name@,
            package_version: self.package_version@,
            crate_name: self.crate_name@,
            target_arch: self.target_arch@,
            deps: self.deps@,
            dep_hashes: hash_views(self.dep_hashes@),
        }
    }
}

impl UnitPlanInfoView {
    /// The name of the unit's own directories.
    pub open spec fn dir_name(self) -> Seq<char> {
        self.package_name + "-"@ + self.unit_hash
    }

    /// Whether the unit's own directories can be named.
    pub open spec fn has_dirs(self) -> bool {
        !path::is_abs(self.dir_name())
    }

    /// The unit's fingerprint directory, relative to its profile directory.
    pub open spec fn fingerprint_dir(self) -> Seq<char> {
        path::join(".fingerprint"@, self.dir_name())
    }

    /// The unit's build script directory, relative to its profile directory.
    pub open spec fn build_dir(self) -> Seq<char> {
        path::join("build"@, self.dir_name())
    }
}

/// A unit has directories named after its package and its hash, unless the name of the
/// package begins at the root directory.
pub proof fn law_directories_of_a_unit(info: UnitPlanInfoView)
    ensures
        info.has_dirs() <==> info.package_name.len() == 0 || info.package_name[0] != '/',
        info.fingerprint_dir() == ".fingerprint/"@ + (info.package_name + "-"@ + info.unit_hash),
        info.build_dir() == "build/"@ + (info.package_name + "-"@ + info.unit_hash),
{
    reveal_strlit("-");
    reveal_strlit(".fingerprint");
    reveal_strlit(".fingerprint/");
    reveal_strlit("build");
    reveal_strlit("build/");
    let unit = info.package_name + "-"@ + info.unit_hash;
    if info.package_name.len() > 0 {
        assert(unit[0] == info.package_name[0]);
    } else {
        assert(unit[0] == '-');
    }
    assert(path::join(".fingerprint"@, unit) =~= ".fingerprint/"@ + unit);
    assert(path::join("build"@, unit) =~= "build/"@ + unit);
}

impl Clone for UnitPlanInfo {
    fn clone(&self) -> (r: Self)
        ensures
            r@ == self@,
    {
        let deps: Vec<u32> = self.deps.clone();
        assert(deps@ =~= self.deps@);
        UnitPlanInfo {
            unit_hash: self.unit_hash.clone(),
            package_name: self.package_name.clone(),
            package_version: self.package_version.clone(),
            crate_name: self.crate_name.clone(),
            target_arch: self.target_arch.clone(),
            deps,
            dep_hashes: copy_hashes(&self.dep_hashes),
        }
    }
}

impl UnitPlanInfo {
    fn dir_name(&self) -> (r: String)
        ensures
            r@ == self@.dir_name(),
    {
        text::concat3(self.package_name.as_str(), "-", self.unit_hash.text.as_str())
    }

    /// The directory for library artifacts, relative to the profile directory.
    pub fn deps_dir(&self) -> (r: Result<RelDirPath, PathError>)
        ensures
            r matches Ok(d) && d@ == "deps"@,
    {
        proof {
            reveal_strlit("deps");
        }
        Ok(RelDirPath::known("deps"))
    }

    /// The unit's fingerprint directory, relative to the profile directory.
    pub fn fingerprint_dir(&self) -> (r: Result<RelDirPath, PathError>)
        ensures
            match r {
                Ok(d) => self@.has_dirs() && d@ == self@.fingerprint_dir(),
                Err(e) => !self@.has_dirs() && e == PathError::NotRelative,
            },
    {
        proof {
            reveal_strlit(".fingerprint");
        }
        RelDirPath::known(".fingerprint").try_join_dir(self.dir_name().as_str())
    }

    /// The unit's build script directory, relative to the profile directory.
    pub fn build_dir(&self) -> (r: Result<RelDirPath, PathError>)
        ensures
            match r {
                Ok(d) => self@.has_dirs() && d@ == self@.build_dir(),
                Err(e) => !self@.has_dirs() && e == PathError::NotRelative,
            },
    {
        proof {
            reveal_strlit("build");
        }
        RelDirPath::known("build").try_join_dir(self.dir_name().as_str())
    }
}

/// The plan of a unit.
#[derive(Debug)]
pub enum UnitPlan {
    /// The unit compiles a library crate.
    LibraryCrate(LibraryCrateUnitPlan),
    /// The unit compiles a build script.
    BuildScriptCompilation(BuildScriptCompilationUnitPlan),
    /// The unit runs a build script.
    BuildScriptExecution(BuildScriptExecutionUnitPlan),
}

/// A [`UnitPlan`] in terms of characters and sequences.
pub enum UnitPlanView {
    LibraryCrate(library_crate::LibraryCrateUnitPlanView),
    BuildScriptCompilation(build_script_compilation::BuildScriptCompilationUnitPlanView),
    BuildScriptExecution(build_script_execution::BuildScriptExecutionUnitPlanView),
}

impl View for UnitPlan {
    type V = UnitPlanView;

    open spec fn view(&self) -> UnitPlanView {
        match self {
            UnitPlan::LibraryCrate(plan) => UnitPlanView::LibraryCrate(plan@),
            UnitPlan::BuildScriptCompilation(plan) => UnitPlanView::BuildScriptCompilation(plan@),
            UnitPlan::BuildScriptExecution(plan) => UnitPlanView::BuildScriptExecution(plan@),
        }
    }
}

impl Clone for UnitPlan {
    fn clone(&self) -> (r: Self)
        ensures
            r@ == self@,
    {
        match self {
            UnitPlan::LibraryCrate(plan) => UnitPlan::LibraryCrate(plan.clone()),
            UnitPlan::BuildScriptCompilation(plan) => {
                UnitPlan::BuildScriptCompilation(plan.clone())
            },
            UnitPlan::BuildScriptExecution(plan) => UnitPlan::BuildScriptExecution(plan.clone()),
        }
    }
}

impl UnitPlanView {
    /// What the plans of all kinds of units have in common.
    pub open spec fn info(self) -> UnitPlanInfoView {
        match self {
            UnitPlanView::LibraryCrate(plan) => plan.info,
            UnitPlanView::BuildScriptCompilation(plan) => plan.info,
            UnitPlanView::BuildScriptExecution(plan) => plan.info,
        }
    }

    /// The fingerprint, relative to the profile directory.
    pub open spec fn fingerprint_json_file(self) -> Result<Seq<char>, UnitFileError> {
        match self {
            UnitPlanView::LibraryCrate(plan) => plan.fingerprint_json_file(),
            UnitPlanView::BuildScriptCompilation(plan) => plan.fingerprint_json_file(),
            UnitPlanView::BuildScriptExecution(plan) => plan.fingerprint_json_file(),
        }
    }

    /// The hash of the fingerprint, relative to the profile directory.
    pub open spec fn fingerprint_hash_file(self) -> Result<Seq<char>, UnitFileError> {
        match self {
            UnitPlanView::LibraryCrate(plan) => plan.fingerprint_hash_file(),
            UnitPlanView::BuildScriptCompilation(plan) => plan.fingerprint_hash_file(),
            UnitPlanView::BuildScriptExecution(plan) => plan.fingerprint_hash_file(),
        }
    }

    /// The source file whose path enters the fingerprint.
    pub open spec fn src_path(self) -> Option<Seq<char>> {
        match self {
            UnitPlanView::LibraryCrate(plan) => Some(plan.src_path),
            UnitPlanView::BuildScriptCompilation(plan) => Some(plan.src_path),
            UnitPlanView::BuildScriptExecution(_) => None,
        }
    }

    /// The files that are touched together, and the directory, where there is one,
    /// of which every file is.
    pub open spec fn touched(self, profile_dir: Seq<char>) -> Result<
        (Seq<Seq<char>>, Option<Seq<char>>),
        UnitFileError,
    > {
        match self {
            UnitPlanView::LibraryCrate(plan) => match plan.touched(profile_dir) {
                Ok(files) => Ok((files, None)),
                Err(e) => Err(e),
            },
            UnitPlanView::BuildScriptCompilation(plan) => match plan.touched(profile_dir) {
                Ok(files) => Ok((files, None)),
                Err(e) => Err(e),
            },
            UnitPlanView::BuildScriptExecution(plan) => match plan.touched(profile_dir) {
                Ok((files, walk)) => Ok((files, Some(walk))),
                Err(e) => Err(e),
            },
        }
    }
}

/// The views of a sequence of unit plans.
pub open spec fn plan_views(v: Seq<UnitPlan>) -> Seq<UnitPlanView> {
    Seq::new(v.len(), |i: int| v[i]@)
}

/// A touch plan in terms of characters.
pub open spec fn touch_view(plan: TouchPlan) -> (Seq<Seq<char>>, Option<Seq<char>>) {
    (
        units::abs_views(plan.files@),
        match plan.walk {
            Some(d) => Some(d@),
            None => None,
        },
    )
}

impl UnitPlan {
    /// What the plans of all kinds of units have in common.
    pub fn info(&self) -> (r: &UnitPlanInfo)
        ensures
            r@ == self@.info(),
    {
        match self {
            UnitPlan::LibraryCrate(plan) => &plan.info,
            UnitPlan::BuildScriptCompilation(plan) => &plan.info,
            UnitPlan::BuildScriptExecution(plan) => &plan.info,
        }
    }

    /// The files of this unit whose modification times are set together.
    pub fn touch(&self, ws: &Workspace) -> (r: Result<TouchPlan, UnitFileError>)
        ensures
            ({
                let want = self@.touched(ws.spec_arch_profile_dir(self@.info().target_arch));
                match r {
                    Ok(plan) => want == Ok::<
                        (Seq<Seq<char>>, Option<Seq<char>>),
                        UnitFileError,
                    >(touch_view(plan)),
                    Err(e) => want == Err::<(Seq<Seq<char>>, Option<Seq<char>>), UnitFileError>(e),
                }
            }),
    {
        match self {
            UnitPlan::LibraryCrate(plan) => plan.touch_plan(ws),
            UnitPlan::BuildScriptCompilation(plan) => plan.touch_plan(ws),
            UnitPlan::BuildScriptExecution(plan) => plan.touch_plan(ws),
        }
    }

    /// The fingerprint, relative to the profile directory.
    pub fn fingerprint_json_file(&self) -> (r: Result<RelFilePath, UnitFileError>)
        ensures
            units::file_view(r) == self@.fingerprint_json_file(),
    {
        match self {
            UnitPlan::LibraryCrate(plan) => plan.fingerprint_json_file(),
            UnitPlan::BuildScriptCompilation(plan) => plan.fingerprint_json_file(),
            UnitPlan::BuildScriptExecution(plan) => plan.fingerprint_json_file(),
        }
    }

    /// The hash of the fingerprint, relative to the profile directory.
    pub fn fingerprint_hash_file(&self) -> (r: Result<RelFilePath, UnitFileError>)
        ensures
            units::file_view(r) == self@.fingerprint_hash_file(),
    {
        match self {
            UnitPlan::LibraryCrate(plan) => plan.fingerprint_hash_file(),
            UnitPlan::BuildScriptCompilation(plan) => plan.fingerprint_hash_file(),
            UnitPlan::BuildScriptExecution(plan) => plan.fingerprint_hash_file(),
        }
    }

    /// The source file whose path enters the fingerprint. A unit that runs a build
    /// script has none.
    pub fn src_path(&self) -> (r: Option<AbsFilePath>)
        ensures
            match r {
                Some(p) => self@.src_path() == Some(p@),
                None => self@.src_path() is None,
            },
    {
        match self {
            UnitPlan::LibraryCrate(plan) => Some(plan.src_path.clone()),
            UnitPlan::BuildScriptCompilation(plan) => Some(plan.src_path.clone()),
            UnitPlan::BuildScriptExecution(_) => None,
        }
    }
}

/// The file of a unit's fingerprint is that of its hash with `.json` behind it.
pub proof fn law_fingerprint_json_is_hash_file_with_extension(plan: UnitPlanView)
    ensures
        match plan.fingerprint_hash_file() {
            Ok(f) => plan.fingerprint_json_file() == Ok::<Seq<char>, UnitFileError>(f + ".json"@),
            Err(e) => plan.fingerprint_json_file() == Err::<Seq<char>, UnitFileError>(e),
        },
{
    reveal_strlit("lib-");
    reveal_strlit("build-script-build-script-");
    reveal_strlit("run-build-script-");
    reveal_strlit("");
    let json = ".json"@;
    let dir = plan.info().fingerprint_dir();
    match plan {
        UnitPlanView::LibraryCrate(p) => {
            let name = "lib-"@ + p.info.crate_name;
            assert(path::join(dir, name + json) =~= path::join(dir, name) + json);
        },
        UnitPlanView::BuildScriptCompilation(p) => {
            if let Ok(entry) = p.entrypoint() {
                let prefix = "build-script-build-script-"@;
                let name = prefix + entry;
                assert(prefix + entry + ""@ =~= name);
                assert(path::join(dir, name + json) =~= path::join(dir, name) + json);
            }
        },
        UnitPlanView::BuildScriptExecution(p) => {
            let name = "run-build-script-"@ + p.build_script_program_name;
            assert(path::join(dir, name + json) =~= path::join(dir, name) + json);
        },
    }
}

/// What is built for a platform lies below a directory of that platform, and what
/// is built for the host beside it.
pub proof fn law_profile_dirs(build_dir: Seq<char>, profile: Seq<char>, triple: Seq<char>)
    ensures
        profile_dir_of(build_dir, profile, Some(triple)) == profile_dir_of(
            path::join(build_dir, triple),
            profile,
            None,
        ),
{
}

/// What is built for the host lies in the directory of the profile, below the build
/// directory. What is built for a platform that was asked for lies in one of the same name
/// below the directory of that platform.
pub proof fn law_directories_of_a_build(ws: Workspace, triple: Seq<char>)
    ensures
        ws.spec_arch_profile_dir(None) == path::join(ws.build_dir@, ws.profile@),
        ws.spec_arch_profile_dir(Some(triple)) == path::join(
            path::join(ws.build_dir@, triple),
            ws.profile@,
        ),
        backup_of(ws.root@, triple) == path::join(ws.root@, "target.backup."@ + triple),
{
}

/// A workspace is opened exactly where its directories are absolute, the compiler tells
/// the platform of the host, and neither that platform, nor the profile, nor the platform
/// of the build begins at the root directory. Else the first of these, in this order,
/// tells why it is not.
pub proof fn law_what_a_workspace_needs(facts: WorkspaceFacts, argv: Seq<Seq<char>>)
    ensures
        ({
            let root = facts.workspace_root@.len() > 0 && facts.workspace_root@[0] == '/';
            let build = facts.target_directory@.len() > 0 && facts.target_directory@[0] == '/';
            let home = facts.cargo_home@.len() > 0 && facts.cargo_home@[0] == '/';
            let host = facts.host_known;
            let printed = facts.host_output is Some;
            let name = text::trimmed(facts.host_output->0@);
            let named = name.len() == 0 || name[0] != '/';
            let profile = build_args::profile_of(argv);
            let target = build_args::option_value(argv, "--target"@);
            let profile_ok = profile matches Some(p) ==> p.len() == 0 || p[0] != '/';
            let target_ok = target matches Some(t) ==> t.len() == 0 || t[0] != '/';
            let error = opening_error(facts, argv);
            &&& error is None <==> root && build && home && host && printed && named && profile_ok
                && target_ok
            &&& error == Some(WorkspaceError::RootNotAbsolute) <==> !root
            &&& error == Some(WorkspaceError::BuildDirNotAbsolute) <==> root && !build
            &&& error == Some(WorkspaceError::CargoHomeNotAbsolute) <==> root && build && !home
            &&& error == Some(WorkspaceError::HostUnknown) <==> root && build && home && !host
            &&& error == Some(WorkspaceError::HostNotText) <==> root && build && home && host
                && !printed
            &&& error == Some(WorkspaceError::HostName) <==> root && build && home && host
                && printed && !named
            &&& error == Some(WorkspaceError::ProfileName) <==> root && build && home && host
                && printed && named && !profile_ok
            &&& error == Some(WorkspaceError::TargetName) <==> root && build && home && host
                && printed && named && profile_ok && !target_ok
        }),
{
}

proof fn lemma_filled_is_filtered(lines: Seq<Seq<char>>, keep: spec_fn(Seq<char>) -> bool)
    requires
        forall|l: Seq<char>| #[trigger] keep(l) == (text::trimmed(l).len() > 0),
    ensures
        filled_lines(lines) == lines.filter(keep),
    decreases lines.len(),
{
    reveal(Seq::filter);
    if lines.len() > 0 {
        lemma_filled_is_filtered(lines.drop_last(), keep);
        assert(keep(lines.last()) == (text::trimmed(lines.last()).len() > 0));
    }
}

/// The lines that can hold a plan are those that are not blank, as they are, in their
/// order.
pub proof fn law_blank_lines_hold_no_plan(lines: Seq<Seq<char>>)
    ensures
        filled_lines(lines) == lines.filter(|l: Seq<char>| text::trimmed(l).len() > 0),
{
    lemma_filled_is_filtered(lines, |l: Seq<char>| text::trimmed(l).len() > 0);
}

/// A build has the profile that it asks for. One that asks for none is a debug build, and
/// one that asks for `--release` or `-r` alone a release build.
pub proof fn law_builds_are_debug_builds_by_default(argv: Seq<Seq<char>>)
    ensures
        build_args::option_value(argv, "--profile"@) matches Some(name) ==> opened_profile(argv)
            == name,
        build_args::option_value(argv, "--profile"@) is None && (argv.contains("--release"@)
            || argv.contains("-r"@)) ==> opened_profile(argv) == "release"@,
        build_args::option_value(argv, "--profile"@) is None && !argv.contains("--release"@)
            && !argv.contains("-r"@) ==> opened_profile(argv) == "debug"@,
{
}

} // verus!
