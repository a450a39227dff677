//! Units that compile a build script.

use std::collections::HashMap;
use vstd::prelude::*;
use vstd::string::*;

use crate::cargo::dep_info;
use crate::cargo::dep_info::DepInfo;
use crate::cargo::fingerprint;
use crate::cargo::fingerprint::{Fingerprint, RewriteError};
use crate::cargo::path as qualified;
use crate::cargo::path::Existing;
use crate::cargo::units;
use crate::cargo::units::library_crate;
use crate::cargo::units::{ReadError, TouchPlan, UnitFileError, UnitRestoreError, UnitWrite};
use crate::cargo::workspace;
use crate::cargo::workspace::{UnitPlanInfo, Workspace};
use crate::path;
use crate::path::{AbsFilePath, RelFilePath};
use crate::text;

verus! {

/// The plan of a unit that compiles a build script.
#[derive(Debug)]
pub struct BuildScriptCompilationUnitPlan {
    pub info: UnitPlanInfo,
    /// The main source file of the build script, usually `build.rs`.
    pub src_path: AbsFilePath,
}

/// A [`BuildScriptCompilationUnitPlan`] in terms of characters and sequences.
#[verifier::ext_equal]
pub struct BuildScriptCompilationUnitPlanView {
    pub info: workspace::UnitPlanInfoView,
    pub src_path: Seq<char>,
}

impl View for BuildScriptCompilationUnitPlan {
    type V = BuildScriptCompilationUnitPlanView;

    open spec fn view(&self) -> BuildScriptCompilationUnitPlanView {
        BuildScriptCompilationUnitPlanView { info: self.info@, src_path: self.src_path@ }
    }
}

impl Clone for BuildScriptCompilationUnitPlan {
    fn clone(&self) -> (r: Self)
        ensures
            r@ == self@,
    {
        BuildScriptCompilationUnitPlan {
            info: self.info.clone(),
            src_path: self.src_path.clone(),
        }
    }
}

/// A file of the given name in the unit's build script directory.
pub open spec fn build_file(info: workspace::UnitPlanInfoView, name: Seq<char>) -> Result<
    Seq<char>,
    UnitFileError,
> {
    if info.has_dirs() && !path::is_abs(name) {
        Ok(path::join(info.build_dir(), name))
    } else {
        Err(UnitFileError::NotRelative)
    }
}

impl BuildScriptCompilationUnitPlanView {
    /// The name of the build script's main source file, without its extension.
    pub open spec fn entrypoint(self) -> Result<Seq<char>, UnitFileError> {
        match path::name_of(self.src_path) {
            None => Err(UnitFileError::NoSourceName),
            Some(name) => if text::has_suffix(name, ".rs"@) {
                Ok(name.take(name.len() - 3))
            } else {
                Err(UnitFileError::NoRustExtension)
            },
        }
    }

    /// A file in the unit's build script directory, whose name is made of the name
    /// of the main source file by `prefix` and `suffix`.
    pub open spec fn in_build_dir(
        self,
        prefix: Seq<char>,
        underscores: bool,
        suffix: Seq<char>,
    ) -> Result<Seq<char>, UnitFileError> {
        if !self.info.has_dirs() {
            Err(UnitFileError::NotRelative)
        } else {
            match self.entrypoint() {
                Err(e) => Err(e),
                Ok(entry) => {
                    let name = if underscores {
                        text::replaced(entry, '-', '_')
                    } else {
                        entry
                    };
                    build_file(self.info, prefix + name + suffix)
                },
            }
        }
    }

    /// A file in the unit's fingerprint directory, whose name is made of the name
    /// of the main source file by `prefix` and `suffix`.
    pub open spec fn in_fingerprint_dir(self, prefix: Seq<char>, suffix: Seq<char>) -> Result<
        Seq<char>,
        UnitFileError,
    > {
        if !self.info.has_dirs() {
            Err(UnitFileError::NotRelative)
        } else {
            match self.entrypoint() {
                Err(e) => Err(e),
                Ok(entry) => library_crate::fingerprint_file(self.info, prefix + entry + suffix),
            }
        }
    }

    /// `build/{package}-{hash}/build_script_{entrypoint}-{hash}`
    pub open spec fn program_file(self) -> Result<Seq<char>, UnitFileError> {
        self.in_build_dir("build_script_"@, true, "-"@ + self.info.unit_hash)
    }

    /// `build/{package}-{hash}/build-script-{entrypoint}`
    pub open spec fn linked_program_file(self) -> Result<Seq<char>, UnitFileError> {
        self.in_build_dir("build-script-"@, false, ""@)
    }

    /// `build/{package}-{hash}/build_script_{entrypoint}-{hash}.d`
    pub open spec fn dep_info_file(self) -> Result<Seq<char>, UnitFileError> {
        self.in_build_dir("build_script_"@, true, "-"@ + self.info.unit_hash + ".d"@)
    }

    /// `.fingerprint/{package}-{hash}/dep-build-script-build-script-{entrypoint}`
    pub open spec fn encoded_dep_info_file(self) -> Result<Seq<char>, UnitFileError> {
        self.in_fingerprint_dir("dep-build-script-build-script-"@, ""@)
    }

    /// `.fingerprint/{package}-{hash}/build-script-build-script-{entrypoint}.json`
    pub open spec fn fingerprint_json_file(self) -> Result<Seq<char>, UnitFileError> {
        self.in_fingerprint_dir("build-script-build-script-"@, ".json"@)
    }

    /// `.fingerprint/{package}-{hash}/build-script-build-script-{entrypoint}`
    pub open spec fn fingerprint_hash_file(self) -> Result<Seq<char>, UnitFileError> {
        self.in_fingerprint_dir("build-script-build-script-"@, ""@)
    }

    /// The files that are touched together.
    pub open spec fn touched(self, profile_dir: Seq<char>) -> Result<
        Seq<Seq<char>>,
        UnitFileError,
    > {
        match self.program_file() {
            Err(e) => Err(e),
            Ok(a) => Ok(
                seq![
                    path::join(profile_dir, a),
                    path::join(profile_dir, self.linked_program_file()->Ok_0),
                    path::join(profile_dir, self.dep_info_file()->Ok_0),
                    path::join(profile_dir, self.encoded_dep_info_file()->Ok_0),
                    path::join(profile_dir, self.fingerprint_json_file()->Ok_0),
                    path::join(profile_dir, self.fingerprint_hash_file()->Ok_0),
                ],
            ),
        }
    }
}

/// The files of a unit that compiles a build script have the names that Cargo gives them,
/// where `entry` is the name of the script's source file without `.rs`: the program, with
/// underscores for dashes and the hash behind it, its hard link and its dep-info file lie
/// in `build/{package}-{hash}`, and the rest in `.fingerprint/{package}-{hash}`.
pub proof fn law_files_have_the_names_of_cargo(
    plan: BuildScriptCompilationUnitPlanView,
    entry: Seq<char>,
)
    requires
        path::name_of(plan.src_path) == Some(entry + ".rs"@),
        plan.info.package_name.len() == 0 || plan.info.package_name[0] != '/',
    ensures
        ({
            let unit = plan.info.package_name + "-"@ + plan.info.unit_hash;
            let build = "build/"@ + unit;
            let fingerprint = ".fingerprint/"@ + unit;
            let module = Seq::new(
                entry.len(),
                |i: int|
                    if entry[i] == '-' {
                        '_'
                    } else {
                        entry[i]
                    },
            );
            let program = "build_script_"@ + module + "-"@ + plan.info.unit_hash;
            let name = "build-script-build-script-"@ + entry;
            &&& plan.program_file() == Ok::<Seq<char>, UnitFileError>(path::join(build, program))
            &&& plan.linked_program_file() == Ok::<Seq<char>, UnitFileError>(
                path::join(build, "build-script-"@ + entry),
            )
            &&& plan.dep_info_file() == Ok::<Seq<char>, UnitFileError>(
                path::join(build, program + ".d"@),
            )
            &&& plan.encoded_dep_info_file() == Ok::<Seq<char>, UnitFileError>(
                path::join(fingerprint, "dep-"@ + name),
            )
            &&& plan.fingerprint_hash_file() == Ok::<Seq<char>, UnitFileError>(
                path::join(fingerprint, name),
            )
            &&& plan.fingerprint_json_file() == Ok::<Seq<char>, UnitFileError>(
                path::join(fingerprint, name + ".json"@),
            )
        }),
{
    workspace::law_directories_of_a_unit(plan.info);
    reveal_strlit("build_script_");
    reveal_strlit("build-script-");
    reveal_strlit("dep-build-script-build-script-");
    reveal_strlit("build-script-build-script-");
    reveal_strlit("dep-");
    reveal_strlit(".rs");
    reveal_strlit("-");
    reveal_strlit(".d");
    reveal_strlit("");
    let file = entry + ".rs"@;
    let hash = plan.info.unit_hash;
    assert(file.skip(file.len() - 3) =~= ".rs"@);
    assert(file.take(file.len() - 3) =~= entry);
    let module = Seq::new(
        entry.len(),
        |i: int|
            if entry[i] == '-' {
                '_'
            } else {
                entry[i]
            },
    );
    assert(text::replaced(entry, '-', '_') =~= module);
    assert("build_script_"@ + module + ("-"@ + hash) =~= "build_script_"@ + module + "-"@ + hash);
    assert("build_script_"@ + module + ("-"@ + hash + ".d"@) =~= "build_script_"@ + module + "-"@
        + hash + ".d"@);
    assert("build-script-"@ + entry + ""@ =~= "build-script-"@ + entry);
    assert("dep-build-script-build-script-"@ =~= "dep-"@ + "build-script-build-script-"@);
    assert("dep-build-script-build-script-"@ + entry + ""@ =~= "dep-"@ + (
    "build-script-build-script-"@ + entry));
    assert("build-script-build-script-"@ + entry + ""@ =~= "build-script-build-script-"@ + entry);
}

/// A unit that compiles a build script whose source file is no Rust file, or has no
/// name, has no files that can be named.
pub proof fn law_build_scripts_are_rust_files(plan: BuildScriptCompilationUnitPlanView)
    requires
        plan.info.package_name.len() == 0 || plan.info.package_name[0] != '/',
    ensures
        path::name_of(plan.src_path) is None ==> plan.program_file() == Err::<
            Seq<char>,
            UnitFileError,
        >(UnitFileError::NoSourceName),
        path::name_of(plan.src_path) matches Some(name) ==> (!text::has_suffix(name, ".rs"@)
            ==> plan.program_file() == Err::<Seq<char>, UnitFileError>(
            UnitFileError::NoRustExtension,
        )),
{
    workspace::law_directories_of_a_unit(plan.info);
}

/// Either all files of a unit that compiles a build script can be named, or none
/// can, and for the same reason.
pub proof fn law_all_files_or_none(plan: BuildScriptCompilationUnitPlanView)
    ensures
        match plan.program_file() {
            Ok(_) => {
                &&& plan.linked_program_file() is Ok
                &&& plan.dep_info_file() is Ok
                &&& plan.encoded_dep_info_file() is Ok
                &&& plan.fingerprint_json_file() is Ok
                &&& plan.fingerprint_hash_file() is Ok
            },
            Err(e) => {
                &&& plan.linked_program_file() == Err::<Seq<char>, UnitFileError>(e)
                &&& plan.dep_info_file() == Err::<Seq<char>, UnitFileError>(e)
                &&& plan.encoded_dep_info_file() == Err::<Seq<char>, UnitFileError>(e)
                &&& plan.fingerprint_json_file() == Err::<Seq<char>, UnitFileError>(e)
                &&& plan.fingerprint_hash_file() == Err::<Seq<char>, UnitFileError>(e)
            },
        },
{
    reveal_strlit("build_script_");
    reveal_strlit("build-script-");
    reveal_strlit("dep-build-script-build-script-");
    reveal_strlit("build-script-build-script-");
}

pub(crate) fn build_path(info: &UnitPlanInfo, name: &str) -> (r: Result<RelFilePath, UnitFileError>)
    ensures
        units::file_view(r) == build_file(info@, name@),
{
    match info.build_dir() {
        Ok(dir) => units::file_error(dir.try_join_file(name)),
        Err(_) => Err(UnitFileError::NotRelative),
    }
}

impl BuildScriptCompilationUnitPlan {
    /// The name of the build script's main source file, without its extension.
    pub fn entrypoint_module_name(&self) -> (r: Result<String, UnitFileError>)
        ensures
            match r {
                Ok(s) => self@.entrypoint() == Ok::<Seq<char>, UnitFileError>(s@),
                Err(e) => self@.entrypoint() == Err::<Seq<char>, UnitFileError>(e),
            },
    {
        proof {
            reveal_strlit(".rs");
        }
        match self.src_path.file_name() {
            None => Err(UnitFileError::NoSourceName),
            Some(name) => match text::strip_suffix(name.as_str(), ".rs") {
                Some(entry) => Ok(entry),
                None => Err(UnitFileError::NoRustExtension),
            },
        }
    }

    fn in_build_dir(&self, prefix: &str, underscores: bool, suffix: &str) -> (r: Result<
        RelFilePath,
        UnitFileError,
    >)
        ensures
            units::file_view(r) == self@.in_build_dir(prefix@, underscores, suffix@),
    {
        if let Err(_) = self.info.build_dir() {
            return Err(UnitFileError::NotRelative);
        }
        match self.entrypoint_module_name() {
            Err(e) => Err(e),
            Ok(entry) => {
                proof {
                    reveal_strlit("_");
                }
                let name: String = if underscores {
                    text::replace_char(entry.as_str(), '-', "_")
                } else {
                    entry
                };
                let file: String = text::concat3(prefix, name.as_str(), suffix);
                build_path(&self.info, file.as_str())
            },
        }
    }

    fn in_fingerprint_dir(&self, prefix: &str, suffix: &str) -> (r: Result<
        RelFilePath,
        UnitFileError,
    >)
        ensures
            units::file_view(r) == self@.in_fingerprint_dir(prefix@, suffix@),
    {
        if let Err(_) = self.info.fingerprint_dir() {
            return Err(UnitFileError::NotRelative);
        }
        match self.entrypoint_module_name() {
            Err(e) => Err(e),
            Ok(entry) => {
                let file: String = text::concat3(prefix, entry.as_str(), suffix);
                library_crate::fingerprint_path(&self.info, file.as_str())
            },
        }
    }

    /// The compiled program, relative to the profile directory.
    pub fn program_file(&self) -> (r: Result<RelFilePath, UnitFileError>)
        ensures
            units::file_view(r) == self@.program_file(),
    {
        let suffix: String = text::concat("-", self.info.unit_hash.text.as_str());
        self.in_build_dir("build_script_", true, suffix.as_str())
    }

    /// The hard link to the compiled program, relative to the profile directory.
    pub fn linked_program_file(&self) -> (r: Result<RelFilePath, UnitFileError>)
        ensures
            units::file_view(r) == self@.linked_program_file(),
    {
        self.in_build_dir("build-script-", false, "")
    }

    /// The dep-info file, relative to the profile directory.
    pub fn dep_info_file(&self) -> (r: Result<RelFilePath, UnitFileError>)
        ensures
            units::file_view(r) == self@.dep_info_file(),
    {
        let suffix: String = text::concat3("-", self.info.unit_hash.text.as_str(), ".d");
        self.in_build_dir("build_script_", true, suffix.as_str())
    }

    /// The encoded dep-info file, relative to the profile directory.
    pub fn encoded_dep_info_file(&self) -> (r: Result<RelFilePath, UnitFileError>)
        ensures
            units::file_view(r) == self@.encoded_dep_info_file(),
    {
        self.in_fingerprint_dir("dep-build-script-build-script-", "")
    }

    /// The fingerprint, relative to the profile directory.
    pub fn fingerprint_json_file(&self) -> (r: Result<RelFilePath, UnitFileError>)
        ensures
            units::file_view(r) == self@.fingerprint_json_file(),
    {
        self.in_fingerprint_dir("build-script-build-script-", ".json")
    }

    /// The hash of the fingerprint, relative to the profile directory.
    pub fn fingerprint_hash_file(&self) -> (r: Result<RelFilePath, UnitFileError>)
        ensures
            units::file_view(r) == self@.fingerprint_hash_file(),
    {
        self.in_fingerprint_dir("build-script-build-script-", "")
    }

    /// The files of this unit whose modification times are set together.
    pub fn touch_plan(&self, ws: &Workspace) -> (r: Result<TouchPlan, UnitFileError>)
        ensures
            match r {
                Ok(plan) => {
                    &&& plan.walk is None
                    &&& self@.touched(ws.spec_arch_profile_dir(self.info.target_arch@)) == Ok::<
                        Seq<Seq<char>>,
                        UnitFileError,
                    >(units::abs_views(plan.files@))
                },
                Err(e) => self@.touched(ws.spec_arch_profile_dir(self.info.target_arch@)) == Err::<
                    Seq<Seq<char>>,
                    UnitFileError,
                >(e),
            },
    {
        proof {
            law_all_files_or_none(self@);
        }
        let profile_dir = ws.unit_profile_dir(&self.info);
        let mut files: Vec<AbsFilePath> = Vec::new();
        match self.program_file() {
            Err(e) => {
                return Err(e);
            },
            Ok(a) => files.push(profile_dir.join_file(&a)),
        }
        if let Ok(f) = self.linked_program_file() {
            files.push(profile_dir.join_file(&f));
        }
        if let Ok(f) = self.dep_info_file() {
            files.push(profile_dir.join_file(&f));
        }
        if let Ok(f) = self.encoded_dep_info_file() {
            files.push(profile_dir.join_file(&f));
        }
        if let Ok(f) = self.fingerprint_json_file() {
            files.push(profile_dir.join_file(&f));
        }
        if let Ok(f) = self.fingerprint_hash_file() {
            files.push(profile_dir.join_file(&f));
        }
        proof {
            assert(units::abs_views(files@) =~= self@.touched(profile_dir@)->Ok_0);
        }
        Ok(TouchPlan { files, walk: None })
    }
}

/// The files of a unit that compiles a build script.
#[derive(Debug)]
pub struct BuildScriptCompiledFiles {
    /// The compiled program, which also has a hard link under another name.
    pub compiled_program: Vec<u8>,
    pub dep_info_file: DepInfo,
    /// The fingerprint, from which its files are made again.
    pub fingerprint: Fingerprint,
    /// The encoded dep-info file, which holds only relative paths.
    pub encoded_dep_info_file: Vec<u8>,
}

impl BuildScriptCompilationUnitPlan {
    /// Puts together what was read of this unit's files. The fingerprint is checked
    /// against its hash file.
    pub fn read(
        &self,
        ws: &Workspace,
        compiled_program: Vec<u8>,
        dep_info: &str,
        existing: &Existing,
        encoded_dep_info_file: Vec<u8>,
        fingerprint: Fingerprint,
        hash_file: &str,
    ) -> (r: Result<BuildScriptCompiledFiles, ReadError>)
        ensures
            ({
                let roots = ws.roots(self.info.target_arch@);
                let parsed = dep_info::parsed_file(roots, existing@, dep_info@);
                match r {
                    Ok(files) => {
                        &&& files.compiled_program@ == compiled_program@
                        &&& parsed == Ok::<Seq<dep_info::DepInfoLineView>, int>(
                            files.dep_info_file@,
                        )
                        &&& files.encoded_dep_info_file@ == encoded_dep_info_file@
                        &&& files.fingerprint@ == fingerprint::memoized(fingerprint@)
                        &&& hash_file@ == fingerprint::hash_text(fingerprint@)
                    },
                    Err(ReadError::DepInfo(e)) => parsed == Err::<
                        Seq<dep_info::DepInfoLineView>,
                        int,
                    >(e.line as int),
                    Err(ReadError::FingerprintHashMismatch) => parsed is Ok && hash_file@
                        != fingerprint::hash_text(fingerprint@),
                }
            }),
    {
        let dep_info_file = match DepInfo::parse(ws, &self.info.target_arch, existing, dep_info) {
            Ok(d) => d,
            Err(e) => {
                return Err(ReadError::DepInfo(e));
            },
        };
        let mut fingerprint: Fingerprint = fingerprint;
        if !fingerprint.matches_hash_file(hash_file) {
            return Err(ReadError::FingerprintHashMismatch);
        }
        Ok(
            BuildScriptCompiledFiles {
                compiled_program,
                dep_info_file,
                fingerprint,
                encoded_dep_info_file,
            },
        )
    }
}

impl BuildScriptCompiledFiles {
    /// What is written to put the fingerprint back: it is rewritten for this machine,
    /// and from then on known as the replacement of the one that was saved. A path that
    /// was never set is replaced too.
    pub fn restore_fingerprint(
        ws: &Workspace,
        known: &mut HashMap<u64, Fingerprint>,
        fingerprint: Fingerprint,
        plan: &BuildScriptCompilationUnitPlan,
    ) -> (r: Result<Vec<UnitWrite>, UnitRestoreError>)
        ensures
            ({
                let profile = ws.roots(plan.info.target_arch@).profile;
                let before = fingerprint::known_views(old(known)@);
                let f = fingerprint@;
                let g = fingerprint::rewritten(f, Some(fingerprint::path_hash(plan.src_path@)), before);
                let after = before.insert(fingerprint::hash_of(f), g);
                match r {
                    Ok(writes) => {
                        &&& fingerprint::deps_known(f, before)
                        &&& plan@.fingerprint_hash_file() is Ok
                        &&& units::write_views(writes@) == library_crate::fingerprint_writes(
                            profile,
                            plan@.fingerprint_hash_file()->Ok_0,
                            plan@.fingerprint_json_file()->Ok_0,
                            g,
                        )
                        &&& fingerprint::known_views(final(known)@) == after
                    },
                    Err(UnitRestoreError::Rewrite(RewriteError::UnsetPath)) => false,
                    Err(UnitRestoreError::Rewrite(RewriteError::UnknownDependency)) => {
                        &&& !fingerprint::deps_known(f, before)
                        &&& final(known)@ == old(known)@
                    },
                    Err(UnitRestoreError::UnitFile(e)) => {
                        &&& fingerprint::deps_known(f, before)
                        &&& plan@.fingerprint_hash_file() == Err::<Seq<char>, UnitFileError>(e)
                        &&& final(known)@ == old(known)@
                    },
                    Err(UnitRestoreError::RelativeFile) => false,
                }
            }),
    {
        proof {
            law_all_files_or_none(plan@);
        }
        let mut saved: Fingerprint = fingerprint;
        let old_hash: u64 = saved.hash_u64();
        proof {
            fingerprint::lemma_memoized_is_relocated_alike(
                fingerprint@,
                fingerprint::known_views(known@),
            );
        }
        let rewritten = match saved.replaced(Some(plan.src_path.clone()), known) {
            Ok(f) => f,
            Err(e) => {
                return Err(UnitRestoreError::Rewrite(e));
            },
        };
        let replacement = rewritten.clone();
        let writes = match library_crate::write_fingerprint(
            &ws.unit_profile_dir(&plan.info),
            plan.fingerprint_hash_file(),
            plan.fingerprint_json_file(),
            rewritten,
        ) {
            Ok(w) => w,
            Err(e) => {
                return Err(e);
            },
        };
        fingerprint::replace_known(known, old_hash, replacement);
        Ok(writes)
    }

    /// What is written to put the unit back, in order, with the fingerprint for this
    /// machine.
    pub open spec fn writes(
        self,
        roots: qualified::Roots,
        plan: BuildScriptCompilationUnitPlanView,
        fingerprint: fingerprint::FingerprintView,
    ) -> Seq<units::UnitWriteView> {
        seq![
            units::UnitWriteView::File {
                path: path::join(roots.profile, plan.program_file()->Ok_0),
                contents: self.compiled_program@,
                executable: Some(true),
            },
            units::UnitWriteView::Link {
                file: path::join(roots.profile, plan.program_file()->Ok_0),
                link: path::join(roots.profile, plan.linked_program_file()->Ok_0),
            },
            units::UnitWriteView::File {
                path: path::join(roots.profile, plan.encoded_dep_info_file()->Ok_0),
                contents: self.encoded_dep_info_file@,
                executable: None,
            },
            units::UnitWriteView::Text {
                path: path::join(roots.profile, plan.dep_info_file()->Ok_0),
                text: dep_info::file_text(roots, self.dep_info_file@),
            },
        ] + library_crate::fingerprint_writes(
            roots.profile,
            plan.fingerprint_hash_file()->Ok_0,
            plan.fingerprint_json_file()->Ok_0,
            fingerprint,
        )
    }

    /// What is written to put the unit back, in order.
    pub fn restore(
        self,
        ws: &Workspace,
        known: &mut HashMap<u64, Fingerprint>,
        plan: &BuildScriptCompilationUnitPlan,
    ) -> (r: Result<Vec<UnitWrite>, UnitRestoreError>)
        ensures
            r is Err ==> final(known)@ == old(known)@,
            r matches Ok(writes) ==> units::write_views(writes@) == self.writes(
                ws.roots(plan.info.target_arch@),
                plan@,
                fingerprint::rewritten(
                    self.fingerprint@,
                    Some(fingerprint::path_hash(plan.src_path@)),
                    fingerprint::known_views(old(known)@),
                ),
            ),
            ({
                let roots = ws.roots(plan.info.target_arch@);
                let before = fingerprint::known_views(old(known)@);
                let f = self.fingerprint@;
                let g = fingerprint::rewritten(
                    f,
                    Some(fingerprint::path_hash(plan.src_path@)),
                    before,
                );
                match r {
                    Ok(writes) => {
                        &&& plan@.program_file() is Ok
                        &&& fingerprint::deps_known(f, before)
                        &&& units::write_views(writes@) == seq![
                            units::UnitWriteView::File {
                                path: path::join(roots.profile, plan@.program_file()->Ok_0),
                                contents: self.compiled_program@,
                                executable: Some(true),
                            },
                            units::UnitWriteView::Link {
                                file: path::join(roots.profile, plan@.program_file()->Ok_0),
                                link: path::join(
                                    roots.profile,
                                    plan@.linked_program_file()->Ok_0,
                                ),
                            },
                            units::UnitWriteView::File {
                                path: path::join(
                                    roots.profile,
                                    plan@.encoded_dep_info_file()->Ok_0,
                                ),
                                contents: self.encoded_dep_info_file@,
                                executable: None,
                            },
                            units::UnitWriteView::Text {
                                path: path::join(roots.profile, plan@.dep_info_file()->Ok_0),
                                text: dep_info::file_text(roots, self.dep_info_file@),
                            },
                        ] + library_crate::fingerprint_writes(
                            roots.profile,
                            plan@.fingerprint_hash_file()->Ok_0,
                            plan@.fingerprint_json_file()->Ok_0,
                            g,
                        )
                        &&& fingerprint::known_views(final(known)@) == before.insert(
                            fingerprint::hash_of(f),
                            g,
                        )
                    },
                    Err(UnitRestoreError::UnitFile(e)) => plan@.program_file() == Err::<
                        Seq<char>,
                        UnitFileError,
                    >(e),
                    Err(UnitRestoreError::Rewrite(e)) => {
                        &&& plan@.program_file() is Ok
                        &&& e == RewriteError::UnknownDependency
                        &&& !fingerprint::deps_known(f, before)
                    },
                    Err(UnitRestoreError::RelativeFile) => false,
                }
            }),
    {
        proof {
            law_all_files_or_none(plan@);
        }
        let profile_dir = ws.unit_profile_dir(&plan.info);
        let mut writes: Vec<UnitWrite> = Vec::new();
        let program = match plan.program_file() {
            Ok(f) => profile_dir.join_file(&f),
            Err(e) => {
                return Err(UnitRestoreError::UnitFile(e));
            },
        };
        writes.push(
            UnitWrite::File {
                path: program.clone(),
                contents: self.compiled_program,
                executable: Some(true),
            },
        );
        if let Ok(f) = plan.linked_program_file() {
            writes.push(UnitWrite::Link { file: program, link: profile_dir.join_file(&f) });
        }
        if let Ok(f) = plan.encoded_dep_info_file() {
            writes.push(
                UnitWrite::File {
                    path: profile_dir.join_file(&f),
                    contents: self.encoded_dep_info_file,
                    executable: None,
                },
            );
        }
        if let Ok(f) = plan.dep_info_file() {
            writes.push(
                UnitWrite::Text {
                    path: profile_dir.join_file(&f),
                    text: self.dep_info_file.reconstruct(ws, &plan.info.target_arch),
                },
            );
        }
        let ghost before_fingerprint = units::write_views(writes@);
        let mut more: Vec<UnitWrite> = match Self::restore_fingerprint(
            ws,
            known,
            self.fingerprint,
            plan,
        ) {
            Ok(w) => w,
            Err(e) => {
                return Err(e);
            },
        };
        let ghost fingerprint_part = units::write_views(more@);
        writes.append(&mut more);
        assert(units::write_views(writes@) =~= before_fingerprint + fingerprint_part);
        proof {
            let roots = ws.roots(plan.info.target_arch@);
            assert(units::write_views(writes@) =~= seq![
                units::UnitWriteView::File {
                    path: path::join(roots.profile, plan@.program_file()->Ok_0),
                    contents: self.compiled_program@,
                    executable: Some(true),
                },
                units::UnitWriteView::Link {
                    file: path::join(roots.profile, plan@.program_file()->Ok_0),
                    link: path::join(roots.profile, plan@.linked_program_file()->Ok_0),
                },
                units::UnitWriteView::File {
                    path: path::join(roots.profile, plan@.encoded_dep_info_file()->Ok_0),
                    contents: self.encoded_dep_info_file@,
                    executable: None,
                },
                units::UnitWriteView::Text {
                    path: path::join(roots.profile, plan@.dep_info_file()->Ok_0),
                    text: dep_info::file_text(roots, self.dep_info_file@),
                },
            ] + library_crate::fingerprint_writes(
                roots.profile,
                plan@.fingerprint_hash_file()->Ok_0,
                plan@.fingerprint_json_file()->Ok_0,
                fingerprint::rewritten(
                    self.fingerprint@,
                    Some(fingerprint::path_hash(plan.src_path@)),
                    fingerprint::known_views(old(known)@),
                ),
            ));
        }
        Ok(writes)
    }
}

/// Everything of a unit that compiles a build script is written where Cargo reads it, where
/// `entry` is the name of the script's source file without `.rs`: the program, which is
/// made executable, then its hard link, the encoded dep-info file, the dep-info file, the
/// hash of the fingerprint, and the fingerprint.
pub proof fn law_everything_is_written_where_it_is_read(
    files: BuildScriptCompiledFiles,
    roots: qualified::Roots,
    plan: BuildScriptCompilationUnitPlanView,
    entry: Seq<char>,
    fingerprint: fingerprint::FingerprintView,
)
    requires
        plan.info.package_name.len() == 0 || plan.info.package_name[0] != '/',
        path::name_of(plan.src_path) == Some(entry + ".rs"@),
    ensures
        ({
            let unit = plan.info.package_name + "-"@ + plan.info.unit_hash;
            let build = "build/"@ + unit;
            let module = Seq::new(
                entry.len(),
                |i: int|
                    if entry[i] == '-' {
                        '_'
                    } else {
                        entry[i]
                    },
            );
            let program = "build_script_"@ + module + "-"@ + plan.info.unit_hash;
            let name = "build-script-build-script-"@ + entry;
            let writes = files.writes(roots, plan, fingerprint);
            &&& writes.len() == 6
            &&& writes[0] == (units::UnitWriteView::File {
                path: path::join(roots.profile, path::join(build, program)),
                contents: files.compiled_program@,
                executable: Some(true),
            })
            &&& writes[1] == (units::UnitWriteView::Link {
                file: path::join(roots.profile, path::join(build, program)),
                link: path::join(roots.profile, path::join(build, "build-script-"@ + entry)),
            })
            &&& writes[2] == (units::UnitWriteView::File {
                path: path::join(
                    roots.profile,
                    path::join(".fingerprint/"@ + unit, "dep-"@ + name),
                ),
                contents: files.encoded_dep_info_file@,
                executable: None,
            })
            &&& writes[3] == (units::UnitWriteView::Text {
                path: path::join(roots.profile, path::join(build, program + ".d"@)),
                text: dep_info::file_text(roots, files.dep_info_file@),
            })
            &&& writes[4] == (units::UnitWriteView::Text {
                path: path::join(roots.profile, path::join(".fingerprint/"@ + unit, name)),
                text: fingerprint::hash_text(fingerprint),
            })
            &&& writes[5] == (units::UnitWriteView::Json {
                path: path::join(
                    roots.profile,
                    path::join(".fingerprint/"@ + unit, name + ".json"@),
                ),
                fingerprint,
            })
        }),
{
    law_files_have_the_names_of_cargo(plan, entry);
}

} // verus!
