//! The unit graph of a build, as `cargo build --unit-graph` prints it.

use vstd::prelude::*;
use vstd::string::*;

use crate::text;

verus! {

/// What is done to a unit.
#[derive(Debug, Clone, Copy, PartialEq, Eq, Hash, Structural)]
pub enum CargoCompileMode {
    Test,
    Build,
    Check,
    Doc,
    Doctest,
    Docscrape,
    RunCustomBuild,
}

/// The name by which Cargo writes a mode down.
pub open spec fn mode_name(mode: CargoCompileMode) -> Seq<char> {
    match mode {
        CargoCompileMode::Test => "test"@,
        CargoCompileMode::Build => "build"@,
        CargoCompileMode::Check => "check"@,
        CargoCompileMode::Doc => "doc"@,
        CargoCompileMode::Doctest => "doctest"@,
        CargoCompileMode::Docscrape => "docscrape"@,
        CargoCompileMode::RunCustomBuild => "run-custom-build"@,
    }
}

impl CargoCompileMode {
    /// The mode of the given name.
    pub fn from_name(name: &str) -> (r: Option<CargoCompileMode>)
        ensures
            match r {
                Some(m) => mode_name(m) == name@,
                None => forall|m: CargoCompileMode| #[trigger] mode_name(m) != name@,
            },
    {
        if text::same(name, "test") {
            Some(CargoCompileMode::Test)
        } else if text::same(name, "build") {
            Some(CargoCompileMode::Build)
        } else if text::same(name, "check") {
            Some(CargoCompileMode::Check)
        } else if text::same(name, "doc") {
            Some(CargoCompileMode::Doc)
        } else if text::same(name, "doctest") {
            Some(CargoCompileMode::Doctest)
        } else if text::same(name, "docscrape") {
            Some(CargoCompileMode::Docscrape)
        } else if text::same(name, "run-custom-build") {
            Some(CargoCompileMode::RunCustomBuild)
        } else {
            None
        }
    }
}

/// A unit graph.
#[derive(Debug)]
pub struct UnitGraph {
    pub version: u64,
    pub units: Vec<UnitGraphUnit>,
    pub roots: Vec<usize>,
}

/// A unit of a unit graph.
#[derive(Debug)]
pub struct UnitGraphUnit {
    pub pkg_id: String,
    /// The name of the unit's target.
    pub target_name: String,
    pub profile: UnitGraphProfile,
    pub platform: Option<String>,
    pub mode: CargoCompileMode,
    pub features: Vec<String>,
    pub is_std: bool,
    pub dependencies: Vec<UnitGraphDependency>,
}

/// The profile of a unit.
#[derive(Debug)]
pub struct UnitGraphProfile {
    pub name: String,
    pub opt_level: String,
    pub lto: String,
    pub codegen_units: Option<u64>,
    pub debuginfo: Option<u64>,
    pub debug_assertions: bool,
    pub overflow_checks: bool,
    pub rpath: bool,
    pub incremental: bool,
    pub panic: UnitGraphProfilePanicStrategy,
}

/// What a unit does on a panic.
#[derive(Debug, Clone, Copy, PartialEq, Eq, Structural)]
pub enum UnitGraphProfilePanicStrategy {
    Unwind,
    Abort,
}

/// A dependency of a unit.
#[derive(Debug)]
pub struct UnitGraphDependency {
    pub index: usize,
    pub extern_crate_name: String,
    pub public: bool,
    pub noprelude: bool,
}

/// A mode is written down by its own name.
pub proof fn law_names_of_modes(mode: CargoCompileMode)
    ensures
        mode is Test ==> mode_name(mode) == "test"@,
        mode is Build ==> mode_name(mode) == "build"@,
        mode is Check ==> mode_name(mode) == "check"@,
        mode is Doc ==> mode_name(mode) == "doc"@,
        mode is Doctest ==> mode_name(mode) == "doctest"@,
        mode is Docscrape ==> mode_name(mode) == "docscrape"@,
        mode is RunCustomBuild ==> mode_name(mode) == "run-custom-build"@,
{
}

} // verus!
