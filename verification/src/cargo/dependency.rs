//! The packages that a build depends on.

use vstd::prelude::*;
use vstd::string::*;

use crate::text;

verus! {

/// A package that a build depends on. It does not tell builds of the package apart:
/// see [`DependencyBuild`].
#[derive(Debug)]
pub struct Dependency {
    /// The name of the package.
    pub package_name: String,
    /// The name of the package's library crate, which can differ from that of the
    /// package.
    pub lib_name: String,
    /// The version of the package.
    pub version: String,
}

impl Dependency {
    /// The package and its version.
    pub fn display(&self) -> (r: String)
        ensures
            r@ == self.package_name@ + "@"@ + self.version@,
    {
        text::concat3(self.package_name.as_str(), "@", self.version.as_str())
    }
}

/// A build of a package.
#[derive(Debug)]
pub struct DependencyBuild {
    pub package: Dependency,
    pub dependencies: Vec<DependencyBuild>,
    /// The target triple that the package is built for.
    pub target: String,
    pub profile: Optimizations,
    /// The features of the package, each once.
    pub features: Vec<String>,
    pub edition: String,
    pub extra_filename: String,
}

/// The settings of a build.
#[derive(Debug)]
pub struct Optimizations {
    pub opt_level: String,
    pub debuginfo: String,
    pub debug_assertions: bool,
    pub overflow_checks: bool,
    pub test: bool,
}

} // verus!
