//! Build plans, as `cargo build --build-plan` prints them, and the units that
//! they hold.

use vstd::prelude::*;
use vstd::string::*;

use crate::cargo::cache::restore;
use crate::cargo::rustc;
use crate::cargo::rustc::{RustcArguments, RustcTarget};
use crate::cargo::unit_graph::CargoCompileMode;
use crate::cargo::units;
use crate::cargo::units::build_script_compilation;
use crate::cargo::units::build_script_compilation::BuildScriptCompilationUnitPlan;
use crate::cargo::units::build_script_execution;
use crate::cargo::units::build_script_execution::BuildScriptExecutionUnitPlan;
use crate::cargo::units::library_crate;
use crate::cargo::units::library_crate::LibraryCrateUnitPlan;
use crate::cargo::units::UnitFileError;
use crate::cargo::workspace;
use crate::cargo::workspace::{UnitHash, UnitPlan, UnitPlanInfo, Workspace};
use crate::path;
use crate::path::{AbsDirPath, AbsFilePath};
use crate::text;
use crate::vars;

verus! {

/// The kind of a Cargo target.
#[derive(Debug)]
pub enum TargetKind {
    Bench,
    Bin,
    CustomBuild,
    CDyLib,
    DyLib,
    Example,
    Lib,
    ProcMacro,
    RLib,
    StaticLib,
    Test,
    /// A kind that is not known.
    Unknown(String),
}

/// The name by which Cargo writes a kind down.
pub open spec fn kind_name(kind: TargetKind) -> Seq<char> {
    match kind {
        TargetKind::Bench => "bench"@,
        TargetKind::Bin => "bin"@,
        TargetKind::CustomBuild => "custom-build"@,
        TargetKind::CDyLib => "cdylib"@,
        TargetKind::DyLib => "dylib"@,
        TargetKind::Example => "example"@,
        TargetKind::Lib => "lib"@,
        TargetKind::ProcMacro => "proc-macro"@,
        TargetKind::RLib => "rlib"@,
        TargetKind::StaticLib => "staticlib"@,
        TargetKind::Test => "test"@,
        TargetKind::Unknown(name) => name@,
    }
}

/// Whether some name is that of a kind that is known.
pub open spec fn is_kind_name(name: Seq<char>) -> bool {
    ||| name == "bench"@
    ||| name == "bin"@
    ||| name == "custom-build"@
    ||| name == "cdylib"@
    ||| name == "dylib"@
    ||| name == "example"@
    ||| name == "lib"@
    ||| name == "proc-macro"@
    ||| name == "rlib"@
    ||| name == "staticlib"@
    ||| name == "test"@
}

impl TargetKind {
    /// The kind of the given name.
    pub fn from_name(name: &str) -> (r: TargetKind)
        ensures
            kind_name(r) == name@,
            r is Unknown <==> !is_kind_name(name@),
    {
        if text::same(name, "bench") {
            TargetKind::Bench
        } else if text::same(name, "bin") {
            TargetKind::Bin
        } else if text::same(name, "custom-build") {
            TargetKind::CustomBuild
        } else if text::same(name, "cdylib") {
            TargetKind::CDyLib
        } else if text::same(name, "dylib") {
            TargetKind::DyLib
        } else if text::same(name, "example") {
            TargetKind::Example
        } else if text::same(name, "lib") {
            TargetKind::Lib
        } else if text::same(name, "proc-macro") {
            TargetKind::ProcMacro
        } else if text::same(name, "rlib") {
            TargetKind::RLib
        } else if text::same(name, "staticlib") {
            TargetKind::StaticLib
        } else if text::same(name, "test") {
            TargetKind::Test
        } else {
            TargetKind::Unknown(text::copy(name))
        }
    }
}

/// A build plan: what Cargo would run, in order.
#[derive(Debug)]
pub struct BuildPlan {
    pub invocations: Vec<BuildPlanInvocation>,
    pub inputs: Vec<String>,
}

/// A program that Cargo would run.
#[derive(Debug)]
pub struct BuildPlanInvocation {
    pub package_name: String,
    pub package_version: String,
    pub target_kind: Vec<TargetKind>,
    /// The platform that the invocation compiles for.
    pub target_arch: RustcTarget,
    pub compile_mode: CargoCompileMode,
    /// The positions of the invocations that this one needs.
    pub deps: Vec<usize>,
    /// The files that the invocation writes.
    pub outputs: Vec<String>,
    /// Hard links to what the invocation writes, each with the file it links to.
    pub links: Vec<(String, String)>,
    pub program: String,
    pub args: RustcArguments,
    pub env: Vec<(String, String)>,
    pub cwd: String,
}

/// Why the units of a build plan cannot be told.
#[derive(Debug, Clone, Copy, PartialEq, Eq, Structural)]
pub enum PlanError {
    /// The working directory is not absolute.
    CwdNotAbsolute,
    /// A build script is not compiled to exactly one program.
    OutputCount,
    /// An output is not absolute.
    OutputNotAbsolute,
    /// There is not exactly one link to a compiled build script.
    LinkCount,
    /// A link is not absolute.
    LinkNotAbsolute,
    /// A compiled build script has no name.
    ProgramNoName,
    /// The name of a compiled build script has no unit hash.
    ProgramNoHash,
    /// There is no crate name in the arguments.
    NoCrateName,
    /// There is no source file in the arguments.
    NoSourceFile,
    /// The source file is not absolute.
    SourceNotAbsolute,
    /// A build script is compiled for another platform than the host.
    SpecifiedTarget,
    /// A file of the unit cannot be named.
    UnitFile(UnitFileError),
    /// An artifact lies outside of the profile directory.
    OutsideProfileDir,
    /// A compiled build script is not where it is expected.
    ProgramMismatch,
    /// The link to a compiled build script is not where it is expected.
    LinkMismatch,
    /// The program is not absolute.
    ProgramNotAbsolute,
    /// A build script is run without `OUT_DIR`.
    NoOutDir,
    /// `OUT_DIR` is not absolute.
    OutDirNotAbsolute,
    /// `OUT_DIR` has no parent.
    OutDirNoParent,
    /// The directory that holds `OUT_DIR` has no name.
    UnitDirNoName,
    /// The name of the directory that holds `OUT_DIR` has no unit hash.
    UnitDirNoHash,
    /// `OUT_DIR` is not where it is expected.
    OutDirMismatch,
    /// A build script is neither compiled nor run.
    BuildScriptMode,
    /// A dependency is not compiled.
    DependencyMode,
    /// A dependency has no outputs.
    NoOutputs,
    /// The first output has no name.
    OutputNoName,
    /// The name of the first output has no extension.
    OutputNoExtension,
    /// The name of the first output has no unit hash.
    OutputNoHash,
    /// The kind of target is not supported.
    TargetKind,
}

/// Whether a file holds debugging information that Cargo removes.
pub open spec fn is_debug_file(name: Seq<char>) -> bool {
    text::has_suffix(name, ".dwp"@) || text::has_suffix(name, ".dSYM"@)
}

/// The files that are no debugging files, in order.
pub open spec fn without_debug_files(files: Seq<Seq<char>>) -> Seq<Seq<char>>
    decreases files.len(),
{
    if files.len() == 0 {
        Seq::empty()
    } else {
        let before = without_debug_files(files.drop_last());
        if is_debug_file(files.last()) {
            before
        } else {
            before.push(files.last())
        }
    }
}

/// The hashes of those dependencies that are units, where `hashes` holds the unit
/// hash of every earlier invocation that is one.
pub open spec fn dep_hashes_of(deps: Seq<usize>, hashes: Seq<Option<Seq<char>>>) -> Seq<Seq<char>>
    decreases deps.len(),
{
    if deps.len() == 0 {
        Seq::empty()
    } else {
        let before = dep_hashes_of(deps.drop_last(), hashes);
        let d = deps.last();
        if d < hashes.len() && hashes[d as int] is Some {
            before.push(hashes[d as int]->0)
        } else {
            before
        }
    }
}

/// The keys of a list of pairs.
pub open spec fn keys_of(pairs: Seq<(String, String)>) -> Seq<Seq<char>> {
    Seq::new(pairs.len(), |i: int| pairs[i].0@)
}

/// What all units that an invocation can be have in common.
pub open spec fn info_of(
    inv: BuildPlanInvocation,
    unit_hash: Seq<char>,
    crate_name: Seq<char>,
    hashes: Seq<Option<Seq<char>>>,
) -> workspace::UnitPlanInfoView {
    workspace::UnitPlanInfoView {
        unit_hash,
        package_name: inv.package_name@,
        package_version: inv.package_version@,
        crate_name,
        target_arch: inv.target_arch@,
        deps: Seq::new(inv.deps@.len(), |i: int| inv.deps@[i] as u32),
        dep_hashes: dep_hashes_of(inv.deps@, hashes),
    }
}

/// The part of a name after its last dash.
pub open spec fn after_dash(name: Seq<char>) -> Option<Seq<char>> {
    match text::rsplit_once_at(name, '-') {
        Some((_, hash)) => Some(hash),
        None => None,
    }
}

/// The source file of an invocation.
pub open spec fn source_of(inv: BuildPlanInvocation) -> Result<Seq<char>, PlanError> {
    match rustc::source_argument(text::views(inv.args.argv@)) {
        None => Err(PlanError::NoSourceFile),
        Some(src) => if path::is_abs(src) {
            Ok(src)
        } else {
            Err(PlanError::SourceNotAbsolute)
        },
    }
}

/// Checks a file of a unit against where it is expected, below the profile
/// directory.
pub open spec fn check_place(
    profile_dir: Seq<char>,
    actual: Seq<char>,
    expected: Result<Seq<char>, UnitFileError>,
    mismatch: PlanError,
) -> Option<PlanError> {
    match expected {
        Err(e) => Some(PlanError::UnitFile(e)),
        Ok(file) => match path::below(profile_dir, actual) {
            None => Some(PlanError::OutsideProfileDir),
            Some(rel) => if path::components(file) == path::components(rel) {
                None
            } else {
                Some(mismatch)
            },
        },
    }
}

/// The unit that compiles a build script.
pub open spec fn compiled_script(
    ws: Workspace,
    inv: BuildPlanInvocation,
    hashes: Seq<Option<Seq<char>>>,
) -> Result<workspace::UnitPlanView, PlanError> {
    let outputs = without_debug_files(text::views(inv.outputs@));
    let links = without_debug_files(keys_of(inv.links@));
    let crate_name = rustc::flag_value(text::views(inv.args.argv@), "--crate-name"@);
    if outputs.len() != 1 {
        Err(PlanError::OutputCount)
    } else if !path::is_abs(outputs[0]) {
        Err(PlanError::OutputNotAbsolute)
    } else if links.len() != 1 {
        Err(PlanError::LinkCount)
    } else if !path::is_abs(links[0]) {
        Err(PlanError::LinkNotAbsolute)
    } else {
        match path::name_of(outputs[0]) {
            None => Err(PlanError::ProgramNoName),
            Some(name) => match (after_dash(name), crate_name, source_of(inv)) {
                (None, _, _) => Err(PlanError::ProgramNoHash),
                (_, None, _) => Err(PlanError::NoCrateName),
                (_, _, Err(e)) => Err(e),
                (Some(hash), Some(crate_name), Ok(src)) => if inv.target_arch@ is Some {
                    Err(PlanError::SpecifiedTarget)
                } else {
                    let unit = build_script_compilation::BuildScriptCompilationUnitPlanView {
                        info: info_of(inv, hash, crate_name, hashes),
                        src_path: src,
                    };
                    let dir = ws.spec_arch_profile_dir(None);
                    match (
                        check_place(
                            dir,
                            outputs[0],
                            unit.program_file(),
                            PlanError::ProgramMismatch,
                        ),
                        check_place(
                            dir,
                            links[0],
                            unit.linked_program_file(),
                            PlanError::LinkMismatch,
                        ),
                    ) {
                        (Some(e), _) => Err(e),
                        (_, Some(e)) => Err(e),
                        _ => Ok(workspace::UnitPlanView::BuildScriptCompilation(unit)),
                    }
                },
            },
        }
    }
}

/// The unit that runs a build script.
pub open spec fn run_script(
    ws: Workspace,
    inv: BuildPlanInvocation,
    hashes: Seq<Option<Seq<char>>>,
) -> Result<workspace::UnitPlanView, PlanError> {
    if !path::is_abs(inv.program@) {
        Err(PlanError::ProgramNotAbsolute)
    } else {
        match vars::value_of(inv.env@, "OUT_DIR"@) {
            None => Err(PlanError::NoOutDir),
            Some(out_dir) => if !path::is_abs(out_dir) {
                Err(PlanError::OutDirNotAbsolute)
            } else {
                match path::parent_of(out_dir) {
                    None => Err(PlanError::OutDirNoParent),
                    Some(unit_dir) => match path::name_of(unit_dir) {
                        None => Err(PlanError::UnitDirNoName),
                        Some(dir_name) => match (
                            after_dash(dir_name),
                            path::name_of(inv.program@),
                        ) {
                            (None, _) => Err(PlanError::UnitDirNoHash),
                            (_, None) => Err(PlanError::ProgramNoName),
                            (Some(hash), Some(program)) => {
                                let unit =
                                    build_script_execution::BuildScriptExecutionUnitPlanView {
                                    info: info_of(
                                        inv,
                                        hash,
                                        text::replaced(program, '-', '_'),
                                        hashes,
                                    ),
                                    build_script_program_name: program,
                                };
                                match check_place(
                                    ws.spec_arch_profile_dir(inv.target_arch@),
                                    out_dir,
                                    unit.out_dir(),
                                    PlanError::OutDirMismatch,
                                ) {
                                    Some(e) => Err(e),
                                    None => Ok(
                                        workspace::UnitPlanView::BuildScriptExecution(unit),
                                    ),
                                }
                            },
                        },
                    },
                }
            },
        }
    }
}

/// The unit that compiles a library crate.
pub open spec fn compiled_library(
    inv: BuildPlanInvocation,
    hashes: Seq<Option<Seq<char>>>,
) -> Result<workspace::UnitPlanView, PlanError> {
    let outputs = without_debug_files(text::views(inv.outputs@));
    let crate_name = rustc::flag_value(text::views(inv.args.argv@), "--crate-name"@);
    if inv.compile_mode != CargoCompileMode::Build {
        Err(PlanError::DependencyMode)
    } else if exists|i: int| 0 <= i < outputs.len() && !path::is_abs(#[trigger] outputs[i]) {
        Err(PlanError::OutputNotAbsolute)
    } else {
        match (crate_name, source_of(inv)) {
            (None, _) => Err(PlanError::NoCrateName),
            (_, Err(e)) => Err(e),
            (Some(crate_name), Ok(src)) => if outputs.len() == 0 {
                Err(PlanError::NoOutputs)
            } else {
                match path::name_of(outputs[0]) {
                    None => Err(PlanError::OutputNoName),
                    Some(name) => match text::split_once_at(name, '.') {
                        None => Err(PlanError::OutputNoExtension),
                        Some((stem, _)) => match after_dash(stem) {
                            None => Err(PlanError::OutputNoHash),
                            Some(hash) => Ok(
                                workspace::UnitPlanView::LibraryCrate(
                                    library_crate::LibraryCrateUnitPlanView {
                                        info: info_of(inv, hash, crate_name, hashes),
                                        src_path: src,
                                        outputs,
                                    },
                                ),
                            ),
                        },
                    },
                }
            },
        }
    }
}

/// Whether an invocation compiles something that other crates link.
pub open spec fn links_as_library(kinds: Seq<TargetKind>) -> bool {
    exists|i: int|
        0 <= i < kinds.len() && ((#[trigger] kinds[i]) is Lib || kinds[i] is RLib
            || kinds[i] is CDyLib || kinds[i] is ProcMacro)
}

/// The unit that an invocation is. `None` for one that is left out: what the user
/// asked to build, what lies outside of `$CARGO_HOME`, and binaries.
pub open spec fn unit_of(
    ws: Workspace,
    inv: BuildPlanInvocation,
    hashes: Seq<Option<Seq<char>>>,
) -> Result<Option<workspace::UnitPlanView>, PlanError> {
    let kinds = inv.target_kind@;
    if vars::value_of(inv.env@, "CARGO_PRIMARY_PACKAGE"@) == Some("1"@) {
        Ok(None)
    } else if !path::is_abs(inv.cwd@) {
        Err(PlanError::CwdNotAbsolute)
    } else if path::below(ws.cargo_home@, inv.cwd@) is None {
        Ok(None)
    } else if kinds.len() == 1 && kinds[0] is CustomBuild {
        match inv.compile_mode {
            CargoCompileMode::Build => match compiled_script(ws, inv, hashes) {
                Ok(u) => Ok(Some(u)),
                Err(e) => Err(e),
            },
            CargoCompileMode::RunCustomBuild => match run_script(ws, inv, hashes) {
                Ok(u) => Ok(Some(u)),
                Err(e) => Err(e),
            },
            _ => Err(PlanError::BuildScriptMode),
        }
    } else if kinds.len() == 1 && kinds[0] is Bin {
        Ok(None)
    } else if links_as_library(kinds) {
        match compiled_library(inv, hashes) {
            Ok(u) => Ok(Some(u)),
            Err(e) => Err(e),
        }
    } else {
        Err(PlanError::TargetKind)
    }
}

/// The units of the invocations, and the unit hash of each invocation that is a
/// unit; or the error of the first invocation that has one.
pub open spec fn units_of(ws: Workspace, invs: Seq<BuildPlanInvocation>) -> Result<
    (Seq<workspace::UnitPlanView>, Seq<Option<Seq<char>>>),
    PlanError,
>
    decreases invs.len(),
{
    if invs.len() == 0 {
        Ok((Seq::empty(), Seq::empty()))
    } else {
        match units_of(ws, invs.drop_last()) {
            Err(e) => Err(e),
            Ok((units, hashes)) => match unit_of(ws, invs.last(), hashes) {
                Err(e) => Err(e),
                Ok(None) => Ok((units, hashes.push(None))),
                Ok(Some(u)) => Ok((units.push(u), hashes.push(Some(u.info().unit_hash)))),
            },
        }
    }
}

fn drop_debug_files(files: &Vec<String>) -> (r: Vec<String>)
    ensures
        text::views(r@) == without_debug_files(text::views(files@)),
{
    let ghost all = text::views(files@);
    let mut r: Vec<String> = Vec::new();
    let mut i: usize = 0;
    assert(text::views(r@) =~= without_debug_files(all.take(0)));
    while i < files.len()
        invariant
            i <= files.len(),
            all == text::views(files@),
            text::views(r@) == without_debug_files(all.take(i as int)),
        decreases files.len() - i,
    {
        let ghost before = text::views(r@);
        proof {
            assert(all.take(i + 1).drop_last() =~= all.take(i as int));
            assert(all.take(i + 1).last() == files@[i as int]@);
        }
        let name: &str = files[i].as_str();
        if !text::ends_with(name, ".dwp") && !text::ends_with(name, ".dSYM") {
            r.push(text::copy(name));
            assert(text::views(r@) =~= before.push(files@[i as int]@));
        }
        i += 1;
    }
    assert(all.take(files.len() as int) =~= all);
    r
}

fn link_names(links: &Vec<(String, String)>) -> (r: Vec<String>)
    ensures
        text::views(r@) == keys_of(links@),
{
    let mut r: Vec<String> = Vec::new();
    let mut i: usize = 0;
    while i < links.len()
        invariant
            i <= links.len(),
            i == r.len(),
            forall|j: int| 0 <= j < i ==> #[trigger] r@[j]@ == links@[j].0@,
        decreases links.len() - i,
    {
        r.push(links[i].0.clone());
        i += 1;
    }
    assert(text::views(r@) =~= keys_of(links@));
    r
}

/// The views of the unit hashes of invocations.
pub open spec fn known_hashes(hashes: Seq<Option<UnitHash>>) -> Seq<Option<Seq<char>>> {
    Seq::new(
        hashes.len(),
        |i: int|
            match hashes[i] {
                Some(h) => Some(h@),
                None => None,
            },
    )
}

fn unit_info(
    inv: &BuildPlanInvocation,
    unit_hash: String,
    crate_name: String,
    hashes: &Vec<Option<UnitHash>>,
) -> (r: UnitPlanInfo)
    ensures
        r@ == info_of(*inv, unit_hash@, crate_name@, known_hashes(hashes@)),
{
    let ghost known = known_hashes(hashes@);
    let mut deps: Vec<u32> = Vec::new();
    let mut dep_hashes: Vec<UnitHash> = Vec::new();
    let mut i: usize = 0;
    assert(workspace::hash_views(dep_hashes@) =~= dep_hashes_of(inv.deps@.take(0), known));
    while i < inv.deps.len()
        invariant
            i <= inv.deps.len(),
            i == deps.len(),
            known == known_hashes(hashes@),
            forall|j: int| 0 <= j < i ==> #[trigger] deps@[j] == inv.deps@[j] as u32,
            workspace::hash_views(dep_hashes@) == dep_hashes_of(inv.deps@.take(i as int), known),
        decreases inv.deps.len() - i,
    {
        let ghost before = workspace::hash_views(dep_hashes@);
        proof {
            assert(inv.deps@.take(i + 1).drop_last() =~= inv.deps@.take(i as int));
            assert(inv.deps@.take(i + 1).last() == inv.deps@[i as int]);
        }
        let d: usize = inv.deps[i];
        deps.push(#[verifier::truncate] (d as u32));
        if d < hashes.len() {
            if let Some(h) = &hashes[d] {
                assert(known[d as int] == Some(h@));
                dep_hashes.push(h.clone());
                assert(workspace::hash_views(dep_hashes@) =~= before.push(h@));
            } else {
                assert(known[d as int] is None);
            }
        }
        i += 1;
    }
    assert(inv.deps@.take(inv.deps@.len() as int) =~= inv.deps@);
    let r = UnitPlanInfo {
        unit_hash: UnitHash { text: unit_hash },
        package_name: inv.package_name.clone(),
        package_version: inv.package_version.clone(),
        crate_name,
        target_arch: inv.target_arch.clone(),
        deps,
        dep_hashes,
    };
    assert(r@.deps =~= info_of(*inv, unit_hash@, crate_name@, known).deps);
    r
}

fn hash_suffix(name: &str) -> (r: Option<String>)
    ensures
        match r {
            Some(h) => after_dash(name@) == Some(h@),
            None => after_dash(name@) is None,
        },
{
    match text::rsplit_once(name, '-') {
        Some((_, h)) => Some(h),
        None => None,
    }
}

fn source_file(inv: &BuildPlanInvocation) -> (r: Result<AbsFilePath, PlanError>)
    ensures
        match r {
            Ok(f) => source_of(*inv) == Ok::<Seq<char>, PlanError>(f@),
            Err(e) => source_of(*inv) == Err::<Seq<char>, PlanError>(e),
        },
{
    match inv.args.src_path() {
        None => Err(PlanError::NoSourceFile),
        Some(src) => match AbsFilePath::new(src.as_str()) {
            Ok(f) => Ok(f),
            Err(_) => Err(PlanError::SourceNotAbsolute),
        },
    }
}

fn place_error(
    profile_dir: &AbsDirPath,
    actual: &AbsFilePath,
    expected: Result<path::RelFilePath, UnitFileError>,
    mismatch: PlanError,
) -> (r: Option<PlanError>)
    ensures
        r == check_place(profile_dir@, actual@, units::file_view(expected), mismatch),
{
    match expected {
        Err(e) => Some(PlanError::UnitFile(e)),
        Ok(file) => match actual.relative_to(profile_dir) {
            None => Some(PlanError::OutsideProfileDir),
            Some(rel) => if path::same_components(file.as_str(), rel.as_str()) {
                None
            } else {
                Some(mismatch)
            },
        },
    }
}

impl Workspace {
    fn script_compilation(
        &self,
        inv: &BuildPlanInvocation,
        hashes: &Vec<Option<UnitHash>>,
    ) -> (r: Result<UnitPlan, PlanError>)
        ensures
            match r {
                Ok(u) => compiled_script(*self, *inv, known_hashes(hashes@)) == Ok::<
                    workspace::UnitPlanView,
                    PlanError,
                >(u@),
                Err(e) => compiled_script(*self, *inv, known_hashes(hashes@)) == Err::<
                    workspace::UnitPlanView,
                    PlanError,
                >(e),
            },
    {
        let outputs: Vec<String> = drop_debug_files(&inv.outputs);
        assert(text::views(outputs@).len() == outputs@.len());
        if outputs.len() != 1 {
            return Err(PlanError::OutputCount);
        }
        assert(text::views(outputs@)[0] == outputs@[0]@);
        let program = match AbsFilePath::new(outputs[0].as_str()) {
            Ok(f) => f,
            Err(_) => {
                return Err(PlanError::OutputNotAbsolute);
            },
        };
        let links: Vec<String> = drop_debug_files(&link_names(&inv.links));
        assert(text::views(links@).len() == links@.len());
        if links.len() != 1 {
            return Err(PlanError::LinkCount);
        }
        assert(text::views(links@)[0] == links@[0]@);
        let link = match AbsFilePath::new(links[0].as_str()) {
            Ok(f) => f,
            Err(_) => {
                return Err(PlanError::LinkNotAbsolute);
            },
        };
        let name: String = match program.file_name() {
            Some(name) => name,
            None => {
                return Err(PlanError::ProgramNoName);
            },
        };
        let unit_hash: String = match hash_suffix(name.as_str()) {
            Some(h) => h,
            None => {
                return Err(PlanError::ProgramNoHash);
            },
        };
        let crate_name: String = match inv.args.crate_name() {
            Some(c) => c,
            None => {
                return Err(PlanError::NoCrateName);
            },
        };
        let src_path = match source_file(inv) {
            Ok(f) => f,
            Err(e) => {
                return Err(e);
            },
        };
        if let RustcTarget::Specified(_) = &inv.target_arch {
            return Err(PlanError::SpecifiedTarget);
        }
        let profile_dir = self.arch_profile_dir(&RustcTarget::ImplicitHost);
        let unit = BuildScriptCompilationUnitPlan {
            info: unit_info(inv, unit_hash, crate_name, hashes),
            src_path,
        };
        if let Some(e) = place_error(
            &profile_dir,
            &program,
            unit.program_file(),
            PlanError::ProgramMismatch,
        ) {
            return Err(e);
        }
        if let Some(e) = place_error(
            &profile_dir,
            &link,
            unit.linked_program_file(),
            PlanError::LinkMismatch,
        ) {
            return Err(e);
        }
        Ok(UnitPlan::BuildScriptCompilation(unit))
    }

    fn script_execution(
        &self,
        inv: &BuildPlanInvocation,
        hashes: &Vec<Option<UnitHash>>,
    ) -> (r: Result<UnitPlan, PlanError>)
        ensures
            match r {
                Ok(u) => run_script(*self, *inv, known_hashes(hashes@)) == Ok::<
                    workspace::UnitPlanView,
                    PlanError,
                >(u@),
                Err(e) => run_script(*self, *inv, known_hashes(hashes@)) == Err::<
                    workspace::UnitPlanView,
                    PlanError,
                >(e),
            },
    {
        let program = match AbsFilePath::new(inv.program.as_str()) {
            Ok(f) => f,
            Err(_) => {
                return Err(PlanError::ProgramNotAbsolute);
            },
        };
        let out_dir: String = match vars::get(&inv.env, "OUT_DIR") {
            Some(d) => d,
            None => {
                return Err(PlanError::NoOutDir);
            },
        };
        let out_dir = match AbsDirPath::new(out_dir.as_str()) {
            Ok(d) => d,
            Err(_) => {
                return Err(PlanError::OutDirNotAbsolute);
            },
        };
        let unit_dir = match out_dir.parent() {
            Some(d) => d,
            None => {
                return Err(PlanError::OutDirNoParent);
            },
        };
        let dir_name: String = match unit_dir.file_name() {
            Some(name) => name,
            None => {
                return Err(PlanError::UnitDirNoName);
            },
        };
        let unit_hash: String = match hash_suffix(dir_name.as_str()) {
            Some(h) => h,
            None => {
                return Err(PlanError::UnitDirNoHash);
            },
        };
        let program_name: String = match program.file_name() {
            Some(name) => name,
            None => {
                return Err(PlanError::ProgramNoName);
            },
        };
        proof {
            reveal_strlit("_");
        }
        let crate_name: String = text::replace_char(program_name.as_str(), '-', "_");
        let unit = BuildScriptExecutionUnitPlan {
            info: unit_info(inv, unit_hash, crate_name, hashes),
            build_script_program_name: program_name,
        };
        let profile_dir = self.unit_profile_dir(&unit.info);
        match unit.out_dir() {
            Err(e) => Err(PlanError::UnitFile(e)),
            Ok(expected) => match out_dir.relative_to(&profile_dir) {
                None => Err(PlanError::OutsideProfileDir),
                Some(rel) => if path::same_components(expected.as_str(), rel.as_str()) {
                    Ok(UnitPlan::BuildScriptExecution(unit))
                } else {
                    Err(PlanError::OutDirMismatch)
                },
            },
        }
    }

    fn library_compilation(
        &self,
        inv: &BuildPlanInvocation,
        hashes: &Vec<Option<UnitHash>>,
    ) -> (r: Result<UnitPlan, PlanError>)
        ensures
            match r {
                Ok(u) => compiled_library(*inv, known_hashes(hashes@)) == Ok::<
                    workspace::UnitPlanView,
                    PlanError,
                >(u@),
                Err(e) => compiled_library(*inv, known_hashes(hashes@)) == Err::<
                    workspace::UnitPlanView,
                    PlanError,
                >(e),
            },
    {
        if inv.compile_mode != CargoCompileMode::Build {
            return Err(PlanError::DependencyMode);
        }
        let names: Vec<String> = drop_debug_files(&inv.outputs);
        let ghost want = text::views(names@);
        let mut outputs: Vec<AbsFilePath> = Vec::new();
        let mut i: usize = 0;
        while i < names.len()
            invariant
                i <= names.len(),
                i == outputs.len(),
                inv.compile_mode == CargoCompileMode::Build,
                want == text::views(names@),
                want == without_debug_files(text::views(inv.outputs@)),
                forall|j: int|
                    0 <= j < i ==> #[trigger] outputs@[j]@ == want[j] && path::is_abs(want[j]),
            decreases names.len() - i,
        {
            assert(want[i as int] == names@[i as int]@);
            match AbsFilePath::new(names[i].as_str()) {
                Ok(f) => outputs.push(f),
                Err(_) => {
                    return Err(PlanError::OutputNotAbsolute);
                },
            }
            i += 1;
        }
        proof {
            assert forall|j: int| 0 <= j < want.len() implies path::is_abs(#[trigger] want[j]) by {
                assert(outputs@[j]@ == want[j]);
            }
            assert(units::abs_views(outputs@) =~= want);
        }
        let crate_name: String = match inv.args.crate_name() {
            Some(c) => c,
            None => {
                return Err(PlanError::NoCrateName);
            },
        };
        let src_path = match source_file(inv) {
            Ok(f) => f,
            Err(e) => {
                return Err(e);
            },
        };
        if outputs.len() == 0 {
            return Err(PlanError::NoOutputs);
        }
        assert(outputs@[0]@ == want[0]);
        let name: String = match outputs[0].file_name() {
            Some(name) => name,
            None => {
                return Err(PlanError::OutputNoName);
            },
        };
        let stem: String = match text::split_once(name.as_str(), '.') {
            Some((stem, _)) => stem,
            None => {
                return Err(PlanError::OutputNoExtension);
            },
        };
        let unit_hash: String = match hash_suffix(stem.as_str()) {
            Some(h) => h,
            None => {
                return Err(PlanError::OutputNoHash);
            },
        };
        Ok(
            UnitPlan::LibraryCrate(
                LibraryCrateUnitPlan {
                    info: unit_info(inv, unit_hash, crate_name, hashes),
                    src_path,
                    outputs,
                },
            ),
        )
    }

    fn unit_from_invocation(
        &self,
        inv: &BuildPlanInvocation,
        hashes: &Vec<Option<UnitHash>>,
    ) -> (r: Result<Option<UnitPlan>, PlanError>)
        ensures
            match r {
                Ok(Some(u)) => unit_of(*self, *inv, known_hashes(hashes@)) == Ok::<
                    Option<workspace::UnitPlanView>,
                    PlanError,
                >(Some(u@)),
                Ok(None) => unit_of(*self, *inv, known_hashes(hashes@)) == Ok::<
                    Option<workspace::UnitPlanView>,
                    PlanError,
                >(None),
                Err(e) => unit_of(*self, *inv, known_hashes(hashes@)) == Err::<
                    Option<workspace::UnitPlanView>,
                    PlanError,
                >(e),
            },
    {
        if let Some(v) = vars::get(&inv.env, "CARGO_PRIMARY_PACKAGE") {
            if text::same(v.as_str(), "1") {
                return Ok(None);
            }
        }
        let cwd = match AbsFilePath::new(inv.cwd.as_str()) {
            Ok(f) => f,
            Err(_) => {
                return Err(PlanError::CwdNotAbsolute);
            },
        };
        if cwd.relative_to(&self.cargo_home).is_none() {
            return Ok(None);
        }
        if inv.target_kind.len() == 1 {
            match &inv.target_kind[0] {
                TargetKind::CustomBuild => {
                    let r = match inv.compile_mode {
                        CargoCompileMode::Build => self.script_compilation(inv, hashes),
                        CargoCompileMode::RunCustomBuild => self.script_execution(inv, hashes),
                        _ => Err(PlanError::BuildScriptMode),
                    };
                    return match r {
                        Ok(u) => Ok(Some(u)),
                        Err(e) => Err(e),
                    };
                },
                TargetKind::Bin => {
                    return Ok(None);
                },
                _ => {},
            }
        }
        let mut i: usize = 0;
        while i < inv.target_kind.len()
            invariant
                i <= inv.target_kind.len(),
                !(vars::value_of(inv.env@, "CARGO_PRIMARY_PACKAGE"@) == Some("1"@)),
                path::is_abs(inv.cwd@),
                path::below(self.cargo_home@, inv.cwd@) is Some,
                inv.target_kind@.len() == 1 ==> !(inv.target_kind@[0] is CustomBuild)
                    && !(inv.target_kind@[0] is Bin),
                forall|j: int|
                    0 <= j < i ==> !((#[trigger] inv.target_kind@[j]) is Lib
                        || inv.target_kind@[j] is RLib || inv.target_kind@[j] is CDyLib
                        || inv.target_kind@[j] is ProcMacro),
            decreases inv.target_kind.len() - i,
        {
            let linked: bool = match &inv.target_kind[i] {
                TargetKind::Lib => true,
                TargetKind::RLib => true,
                TargetKind::CDyLib => true,
                TargetKind::ProcMacro => true,
                _ => false,
            };
            if linked {
                assert(links_as_library(inv.target_kind@)) by {
                    let k = inv.target_kind@[i as int];
                    assert(k is Lib || k is RLib || k is CDyLib || k is ProcMacro);
                }
                return match self.library_compilation(inv, hashes) {
                    Ok(u) => Ok(Some(u)),
                    Err(e) => Err(e),
                };
            }
            i += 1;
        }
        Err(PlanError::TargetKind)
    }

    /// The units of a build plan, in its order. Units of the workspace itself are
    /// left out: what the user asked to build, what lies outside of `$CARGO_HOME`,
    /// and binaries.
    pub fn units_from_build_plan(&self, build_plan: &BuildPlan) -> (r: Result<
        Vec<UnitPlan>,
        PlanError,
    >)
        ensures
            match r {
                Ok(us) => units_of(*self, build_plan.invocations@) matches Ok((want, _))
                    && workspace::plan_views(us@) == want,
                Err(e) => units_of(*self, build_plan.invocations@) == Err::<
                    (Seq<workspace::UnitPlanView>, Seq<Option<Seq<char>>>),
                    PlanError,
                >(e),
            },
    {
        let ghost invs = build_plan.invocations@;
        let mut us: Vec<UnitPlan> = Vec::new();
        let mut hashes: Vec<Option<UnitHash>> = Vec::new();
        let mut i: usize = 0;
        proof {
            assert(invs.take(0) =~= Seq::empty());
            assert(workspace::plan_views(us@) =~= Seq::empty());
            assert(known_hashes(hashes@) =~= Seq::empty());
        }
        while i < build_plan.invocations.len()
            invariant
                i <= build_plan.invocations.len(),
                invs == build_plan.invocations@,
                units_of(*self, invs.take(i as int)) == Ok::<
                    (Seq<workspace::UnitPlanView>, Seq<Option<Seq<char>>>),
                    PlanError,
                >((workspace::plan_views(us@), known_hashes(hashes@))),
            decreases build_plan.invocations.len() - i,
        {
            let ghost before_units = workspace::plan_views(us@);
            let ghost before_hashes = known_hashes(hashes@);
            proof {
                assert(invs.take(i + 1).drop_last() =~= invs.take(i as int));
                assert(invs.take(i + 1).last() == invs[i as int]);
            }
            match self.unit_from_invocation(&build_plan.invocations[i], &hashes) {
                Err(e) => {
                    proof {
                        lemma_error_stays(*self, invs, i + 1);
                    }
                    return Err(e);
                },
                Ok(None) => {
                    hashes.push(None);
                    assert(known_hashes(hashes@) =~= before_hashes.push(None));
                },
                Ok(Some(u)) => {
                    let h: UnitHash = u.info().unit_hash.clone();
                    assert(h@ == u@.info().unit_hash);
                    hashes.push(Some(h));
                    us.push(u);
                    assert(known_hashes(hashes@) =~= before_hashes.push(Some(h@)));
                    assert(workspace::plan_views(us@) =~= before_units.push(u@));
                },
            }
            i += 1;
        }
        assert(invs.take(invs.len() as int) =~= invs);
        Ok(us)
    }
}

proof fn lemma_error_stays(ws: Workspace, invs: Seq<BuildPlanInvocation>, i: int)
    requires
        0 <= i <= invs.len(),
        units_of(ws, invs.take(i)) is Err,
    ensures
        units_of(ws, invs) == units_of(ws, invs.take(i)),
    decreases invs.len(),
{
    if i == invs.len() {
        assert(invs.take(i) =~= invs);
    } else {
        assert(invs.drop_last().take(i) =~= invs.take(i));
        lemma_error_stays(ws, invs.drop_last(), i);
    }
}

/// The hashes of dependencies are hashes of earlier invocations.
proof fn lemma_dep_hashes_known(deps: Seq<usize>, hashes: Seq<Option<Seq<char>>>)
    ensures
        forall|k: int|
            0 <= k < dep_hashes_of(deps, hashes).len() ==> exists|d: int|
                0 <= d < hashes.len() && hashes[d] == Some(
                    #[trigger] dep_hashes_of(deps, hashes)[k],
                ),
    decreases deps.len(),
{
    if deps.len() > 0 {
        lemma_dep_hashes_known(deps.drop_last(), hashes);
        let before = dep_hashes_of(deps.drop_last(), hashes);
        let all = dep_hashes_of(deps, hashes);
        assert forall|k: int| 0 <= k < all.len() implies exists|d: int|
            0 <= d < hashes.len() && hashes[d] == Some(#[trigger] all[k]) by {
            if k < before.len() {
                assert(all[k] == before[k]);
            } else {
                assert(hashes[deps.last() as int] == Some(all[k]));
            }
        }
    }
}

/// Whether every dependency that is a unit comes before the unit that needs it.
pub open spec fn dependencies_come_first(units: Seq<workspace::UnitPlanView>) -> bool {
    forall|j: int, k: int|
        0 <= j < units.len() && 0 <= k < units[j].info().dep_hashes.len() ==> is_hash_of(
            #[trigger] units[j].info().dep_hashes[k],
            units,
            j,
        )
}

/// Whether some hash is that of one of the first `n` units.
pub open spec fn is_hash_of(h: Seq<char>, units: Seq<workspace::UnitPlanView>, n: int) -> bool {
    exists|i: int| 0 <= i < n && (#[trigger] units[i]).info().unit_hash == h
}

/// Whether every known hash is that of a unit.
spec fn hashes_are_units(
    hashes: Seq<Option<Seq<char>>>,
    units: Seq<workspace::UnitPlanView>,
) -> bool {
    forall|d: int|
        0 <= d < hashes.len() && (#[trigger] hashes[d]) is Some ==> is_hash_of(
            hashes[d]->0,
            units,
            units.len() as int,
        )
}

proof fn lemma_is_hash_of_push(
    h: Seq<char>,
    units: Seq<workspace::UnitPlanView>,
    u: workspace::UnitPlanView,
    n: int,
)
    requires
        n <= units.len(),
        is_hash_of(h, units, n),
    ensures
        is_hash_of(h, units.push(u), n),
        is_hash_of(h, units.push(u), n + 1),
{
    let i = choose|i: int| 0 <= i < n && (#[trigger] units[i]).info().unit_hash == h;
    assert(units.push(u)[i] == units[i]);
}

proof fn lemma_dependencies_come_first(ws: Workspace, invs: Seq<BuildPlanInvocation>)
    requires
        units_of(ws, invs) is Ok,
    ensures
        dependencies_come_first(units_of(ws, invs)->Ok_0.0),
        hashes_are_units(units_of(ws, invs)->Ok_0.1, units_of(ws, invs)->Ok_0.0),
    decreases invs.len(),
{
    if invs.len() > 0 {
        lemma_dependencies_come_first(ws, invs.drop_last());
        let before = units_of(ws, invs.drop_last())->Ok_0.0;
        let known = units_of(ws, invs.drop_last())->Ok_0.1;
        let units = units_of(ws, invs)->Ok_0.0;
        let hashes = units_of(ws, invs)->Ok_0.1;
        let inv = invs.last();
        lemma_dep_hashes_known(inv.deps@, known);
        if let Ok(Some(u)) = unit_of(ws, inv, known) {
            assert(units == before.push(u));
            assert(u.info().dep_hashes == dep_hashes_of(inv.deps@, known));
            assert forall|j: int, k: int|
                0 <= j < units.len() && 0 <= k < units[j].info().dep_hashes.len() implies is_hash_of(
                #[trigger] units[j].info().dep_hashes[k],
                units,
                j,
            ) by {
                if j < before.len() {
                    assert(units[j] == before[j]);
                    assert(is_hash_of(before[j].info().dep_hashes[k], before, j));
                    lemma_is_hash_of_push(before[j].info().dep_hashes[k], before, u, j);
                } else {
                    let h = dep_hashes_of(inv.deps@, known)[k];
                    let d = choose|d: int| 0 <= d < known.len() && known[d] == Some(h);
                    assert(known[d] is Some);
                    lemma_is_hash_of_push(h, before, u, before.len() as int);
                }
            }
            assert forall|d: int|
                0 <= d < hashes.len() && (#[trigger] hashes[d]) is Some implies is_hash_of(
                hashes[d]->0,
                units,
                units.len() as int,
            ) by {
                if d < known.len() {
                    assert(hashes[d] == known[d]);
                    lemma_is_hash_of_push(known[d]->0, before, u, before.len() as int);
                } else {
                    assert(units[before.len() as int] == u);
                }
            }
        } else {
            assert(units == before);
            assert(hashes == known.push(None));
            assert forall|d: int|
                0 <= d < hashes.len() && (#[trigger] hashes[d]) is Some implies is_hash_of(
                hashes[d]->0,
                units,
                units.len() as int,
            ) by {
                assert(hashes[d] == known[d]);
            }
        }
    }
}

/// The dependencies of a unit that are units themselves come before it, in the
/// order of the build plan.
pub proof fn law_dependencies_come_first(ws: Workspace, invs: Seq<BuildPlanInvocation>)
    requires
        units_of(ws, invs) is Ok,
    ensures
        dependencies_come_first(units_of(ws, invs)->Ok_0.0),
{
    lemma_dependencies_come_first(ws, invs);
}

/// The units of a build plan in which no two units share a hash are in the order
/// in which they can be restored: no unit comes before one that it needs.
pub proof fn law_units_are_in_dependency_order(ws: Workspace, invs: Seq<BuildPlanInvocation>)
    requires
        units_of(ws, invs) is Ok,
        forall|i: int, j: int|
            #![trigger units_of(ws, invs)->Ok_0.0[i], units_of(ws, invs)->Ok_0.0[j]]
            0 <= i < j < units_of(ws, invs)->Ok_0.0.len() ==> units_of(
                ws,
                invs,
            )->Ok_0.0[i].info().unit_hash != units_of(ws, invs)->Ok_0.0[j].info().unit_hash,
    ensures
        restore::in_dependency_order(units_of(ws, invs)->Ok_0.0),
{
    law_dependencies_come_first(ws, invs);
    let units = units_of(ws, invs)->Ok_0.0;
    assert forall|i: int, j: int, k: int|
        #![trigger units[i], units[j].info().dep_hashes[k]]
        0 <= i < units.len() && 0 <= j < units.len() && 0 <= k < units[j].info().dep_hashes.len()
            && units[j].info().dep_hashes[k] == units[i].info().unit_hash implies i < j by {
        let h = units[j].info().dep_hashes[k];
        assert(is_hash_of(h, units, j));
        let p = choose|p: int| 0 <= p < j && (#[trigger] units[p]).info().unit_hash == h;
        assert(units[p].info().unit_hash == units[i].info().unit_hash);
    }
}

} // verus!
