//! Units that run a build script.

use std::collections::HashMap;
use vstd::prelude::*;
use vstd::string::*;

use crate::cargo::build_script;
use crate::cargo::build_script::BuildScriptOutput;
use crate::cargo::cache::SavedFile;
use crate::cargo::fingerprint;
use crate::cargo::fingerprint::{Fingerprint, RewriteError};
use crate::cargo::path as qualified;
use crate::cargo::path::Existing;
use crate::cargo::units;
use crate::cargo::units::build_script_compilation;
use crate::cargo::units::library_crate;
use crate::cargo::units::library_crate::FileContents;
use crate::cargo::units::{ReadError, TouchPlan, UnitFileError, UnitRestoreError, UnitWrite};
use crate::cargo::workspace;
use crate::cargo::workspace::{UnitPlanInfo, Workspace};
use crate::path;
use crate::path::{AbsFilePath, RelDirPath, RelFilePath};
use crate::text;

verus! {

/// The plan of a unit that runs a build script.
#[derive(Debug)]
pub struct BuildScriptExecutionUnitPlan {
    pub info: UnitPlanInfo,
    /// The name of the program that is run, which is that of the hard link to the
    /// compiled build script.
    pub build_script_program_name: String,
}

/// A [`BuildScriptExecutionUnitPlan`] in terms of characters and sequences.
#[verifier::ext_equal]
pub struct BuildScriptExecutionUnitPlanView {
    pub info: workspace::UnitPlanInfoView,
    pub build_script_program_name: Seq<char>,
}

impl View for BuildScriptExecutionUnitPlan {
    type V = BuildScriptExecutionUnitPlanView;

    open spec fn view(&self) -> BuildScriptExecutionUnitPlanView {
        BuildScriptExecutionUnitPlanView {
            info: self.info@,
            build_script_program_name: self.build_script_program_name@,
        }
    }
}

impl Clone for BuildScriptExecutionUnitPlan {
    fn clone(&self) -> (r: Self)
        ensures
            r@ == self@,
    {
        BuildScriptExecutionUnitPlan {
            info: self.info.clone(),
            build_script_program_name: self.build_script_program_name.clone(),
        }
    }
}

impl BuildScriptExecutionUnitPlanView {
    /// `.fingerprint/{package}-{hash}/run-build-script-{program}.json`
    pub open spec fn fingerprint_json_file(self) -> Result<Seq<char>, UnitFileError> {
        library_crate::fingerprint_file(
            self.info,
            "run-build-script-"@ + self.build_script_program_name + ".json"@,
        )
    }

    /// `.fingerprint/{package}-{hash}/run-build-script-{program}`
    pub open spec fn fingerprint_hash_file(self) -> Result<Seq<char>, UnitFileError> {
        library_crate::fingerprint_file(
            self.info,
            "run-build-script-"@ + self.build_script_program_name,
        )
    }

    /// `build/{package}-{hash}/out`
    pub open spec fn out_dir(self) -> Result<Seq<char>, UnitFileError> {
        build_script_compilation::build_file(self.info, "out"@)
    }

    /// `build/{package}-{hash}/output`
    pub open spec fn stdout_file(self) -> Result<Seq<char>, UnitFileError> {
        build_script_compilation::build_file(self.info, "output"@)
    }

    /// `build/{package}-{hash}/stderr`
    pub open spec fn stderr_file(self) -> Result<Seq<char>, UnitFileError> {
        build_script_compilation::build_file(self.info, "stderr"@)
    }

    /// `build/{package}-{hash}/root-output`
    pub open spec fn root_output_file(self) -> Result<Seq<char>, UnitFileError> {
        build_script_compilation::build_file(self.info, "root-output"@)
    }

    /// The files that are touched together, and the directory of which every file
    /// is.
    pub open spec fn touched(self, profile_dir: Seq<char>) -> Result<
        (Seq<Seq<char>>, Seq<char>),
        UnitFileError,
    > {
        match self.stdout_file() {
            Err(e) => Err(e),
            Ok(a) => Ok(
                (
                    seq![
                        path::join(profile_dir, a),
                        path::join(profile_dir, self.stderr_file()->Ok_0),
                        path::join(profile_dir, self.root_output_file()->Ok_0),
                        path::join(profile_dir, self.fingerprint_json_file()->Ok_0),
                        path::join(profile_dir, self.fingerprint_hash_file()->Ok_0),
                    ],
                    path::join(profile_dir, self.out_dir()->Ok_0),
                ),
            ),
        }
    }
}

/// The files of a unit that runs a build script have the names that Cargo gives them:
/// what the script printed, what it printed as errors, its output directory and the
/// record of that directory lie in `build/{package}-{hash}`, and the fingerprint in
/// `.fingerprint/{package}-{hash}`.
pub proof fn law_files_have_the_names_of_cargo(plan: BuildScriptExecutionUnitPlanView)
    ensures
        ({
            let unit = plan.info.package_name + "-"@ + plan.info.unit_hash;
            let build = "build/"@ + unit;
            let fingerprint = ".fingerprint/"@ + unit;
            let name = "run-build-script-"@ + plan.build_script_program_name;
            if plan.info.package_name.len() > 0 && plan.info.package_name[0] == '/' {
                plan.stdout_file() == Err::<Seq<char>, UnitFileError>(UnitFileError::NotRelative)
            } else {
                &&& plan.stdout_file() == Ok::<Seq<char>, UnitFileError>(
                    path::join(build, "output"@),
                )
                &&& plan.stderr_file() == Ok::<Seq<char>, UnitFileError>(
                    path::join(build, "stderr"@),
                )
                &&& plan.out_dir() == Ok::<Seq<char>, UnitFileError>(path::join(build, "out"@))
                &&& plan.root_output_file() == Ok::<Seq<char>, UnitFileError>(
                    path::join(build, "root-output"@),
                )
                &&& plan.fingerprint_hash_file() == Ok::<Seq<char>, UnitFileError>(
                    path::join(fingerprint, name),
                )
                &&& plan.fingerprint_json_file() == Ok::<Seq<char>, UnitFileError>(
                    path::join(fingerprint, name + ".json"@),
                )
            }
        }),
{
    workspace::law_directories_of_a_unit(plan.info);
    reveal_strlit("output");
    reveal_strlit("out");
    reveal_strlit("stderr");
    reveal_strlit("root-output");
    reveal_strlit("run-build-script-");
}

/// Either all files of a unit that runs a build script can be named, or none can.
pub proof fn law_all_files_or_none(plan: BuildScriptExecutionUnitPlanView)
    ensures
        plan.stdout_file() is Ok <==> plan.info.has_dirs(),
        plan.stdout_file() is Ok <==> plan.stderr_file() is Ok,
        plan.stdout_file() is Ok <==> plan.root_output_file() is Ok,
        plan.stdout_file() is Ok <==> plan.out_dir() is Ok,
        plan.stdout_file() is Ok <==> plan.fingerprint_json_file() is Ok,
        plan.stdout_file() is Ok <==> plan.fingerprint_hash_file() is Ok,
{
    reveal_strlit("output");
    reveal_strlit("out");
    reveal_strlit("stderr");
    reveal_strlit("root-output");
    reveal_strlit("run-build-script-");
}

impl BuildScriptExecutionUnitPlan {
    /// The fingerprint, relative to the profile directory.
    pub fn fingerprint_json_file(&self) -> (r: Result<RelFilePath, UnitFileError>)
        ensures
            units::file_view(r) == self@.fingerprint_json_file(),
    {
        let name: String = text::concat3(
            "run-build-script-",
            self.build_script_program_name.as_str(),
            ".json",
        );
        library_crate::fingerprint_path(&self.info, name.as_str())
    }

    /// The hash of the fingerprint, relative to the profile directory.
    pub fn fingerprint_hash_file(&self) -> (r: Result<RelFilePath, UnitFileError>)
        ensures
            units::file_view(r) == self@.fingerprint_hash_file(),
    {
        let name: String = text::concat(
            "run-build-script-",
            self.build_script_program_name.as_str(),
        );
        library_crate::fingerprint_path(&self.info, name.as_str())
    }

    /// The directory that the build script writes to, relative to the profile
    /// directory.
    pub fn out_dir(&self) -> (r: Result<RelDirPath, UnitFileError>)
        ensures
            units::dir_view(r) == self@.out_dir(),
    {
        proof {
            reveal_strlit("out");
        }
        match self.info.build_dir() {
            Ok(dir) => match dir.try_join_dir("out") {
                Ok(d) => Ok(d),
                Err(_) => Err(UnitFileError::NotRelative),
            },
            Err(_) => Err(UnitFileError::NotRelative),
        }
    }

    /// What the build script printed, relative to the profile directory.
    pub fn stdout_file(&self) -> (r: Result<RelFilePath, UnitFileError>)
        ensures
            units::file_view(r) == self@.stdout_file(),
    {
        build_script_compilation::build_path(&self.info, "output")
    }

    /// What the build script printed as errors, relative to the profile directory.
    pub fn stderr_file(&self) -> (r: Result<RelFilePath, UnitFileError>)
        ensures
            units::file_view(r) == self@.stderr_file(),
    {
        build_script_compilation::build_path(&self.info, "stderr")
    }

    /// The record of the output directory, relative to the profile directory.
    pub fn root_output_file(&self) -> (r: Result<RelFilePath, UnitFileError>)
        ensures
            units::file_view(r) == self@.root_output_file(),
    {
        build_script_compilation::build_path(&self.info, "root-output")
    }

    /// The files of this unit whose modification times are set together.
    pub fn touch_plan(&self, ws: &Workspace) -> (r: Result<TouchPlan, UnitFileError>)
        ensures
            match r {
                Ok(plan) => {
                    &&& plan.walk is Some
                    &&& self@.touched(ws.spec_arch_profile_dir(self.info.target_arch@)) == Ok::<
                        (Seq<Seq<char>>, Seq<char>),
                        UnitFileError,
                    >((units::abs_views(plan.files@), plan.walk->0@))
                },
                Err(e) => self@.touched(ws.spec_arch_profile_dir(self.info.target_arch@)) == Err::<
                    (Seq<Seq<char>>, Seq<char>),
                    UnitFileError,
                >(e),
            },
    {
        proof {
            law_all_files_or_none(self@);
        }
        let profile_dir = ws.unit_profile_dir(&self.info);
        let mut files: Vec<AbsFilePath> = Vec::new();
        match self.stdout_file() {
            Err(e) => {
                return Err(e);
            },
            Ok(a) => files.push(profile_dir.join_file(&a)),
        }
        if let Ok(f) = self.stderr_file() {
            files.push(profile_dir.join_file(&f));
        }
        if let Ok(f) = self.root_output_file() {
            files.push(profile_dir.join_file(&f));
        }
        if let Ok(f) = self.fingerprint_json_file() {
            files.push(profile_dir.join_file(&f));
        }
        if let Ok(f) = self.fingerprint_hash_file() {
            files.push(profile_dir.join_file(&f));
        }
        let walk = match self.out_dir() {
            Ok(d) => Some(profile_dir.join_dir(&d)),
            Err(_) => None,
        };
        proof {
            assert(units::abs_views(files@) =~= (self@.touched(profile_dir@)->Ok_0).0);
        }
        Ok(TouchPlan { files, walk })
    }
}

/// The files of a unit that runs a build script.
#[derive(Debug)]
pub struct BuildScriptOutputFiles {
    /// The fingerprint, from which its files are made again.
    pub fingerprint: Fingerprint,
    /// The files that the build script wrote to its output directory.
    pub out_dir_files: Vec<SavedFile>,
    /// What the build script printed.
    pub stdout: BuildScriptOutput,
    /// What the build script printed as errors.
    pub stderr: Vec<u8>,
}

impl BuildScriptExecutionUnitPlan {
    /// Puts together what was read of this unit's files. The files of the output
    /// directory are given with their contents. The fingerprint is checked against
    /// its hash file.
    ///
    /// The record of the output directory is not read: it follows from the workspace
    /// and the plan.
    pub fn read(
        &self,
        ws: &Workspace,
        out_dir_paths: &Vec<AbsFilePath>,
        out_dir_contents: Vec<FileContents>,
        stdout: &str,
        existing: &Existing,
        stderr: Vec<u8>,
        fingerprint: Fingerprint,
        hash_file: &str,
    ) -> (r: Result<BuildScriptOutputFiles, ReadError>)
        requires
            out_dir_paths@.len() == out_dir_contents@.len(),
        ensures
            ({
                let roots = ws.roots(self.info.target_arch@);
                match r {
                    Ok(files) => {
                        &&& library_crate::are_saved_files(
                            roots,
                            files.out_dir_files@,
                            units::abs_views(out_dir_paths@),
                            out_dir_contents@,
                        )
                        &&& files.stdout@ == build_script::parsed_output(
                            roots,
                            existing@,
                            stdout@,
                        )
                        &&& files.stderr@ == stderr@
                        &&& files.fingerprint@ == fingerprint::memoized(fingerprint@)
                        &&& hash_file@ == fingerprint::hash_text(fingerprint@)
                    },
                    Err(e) => {
                        &&& e == ReadError::FingerprintHashMismatch
                        &&& hash_file@ != fingerprint::hash_text(fingerprint@)
                    },
                }
            }),
    {
        let stdout = BuildScriptOutput::parse(ws, &self.info.target_arch, existing, stdout);
        let out_dir_files = library_crate::saved_files(
            ws,
            &self.info,
            out_dir_paths,
            out_dir_contents,
        );
        let mut fingerprint: Fingerprint = fingerprint;
        if !fingerprint.matches_hash_file(hash_file) {
            return Err(ReadError::FingerprintHashMismatch);
        }
        Ok(BuildScriptOutputFiles { fingerprint, out_dir_files, stdout, stderr })
    }
}

impl BuildScriptOutputFiles {
    /// What is written to put the fingerprint back: it is rewritten for this machine,
    /// and from then on known as the replacement of the one that was saved.
    pub fn restore_fingerprint(
        ws: &Workspace,
        known: &mut HashMap<u64, Fingerprint>,
        fingerprint: Fingerprint,
        plan: &BuildScriptExecutionUnitPlan,
    ) -> (r: Result<Vec<UnitWrite>, UnitRestoreError>)
        ensures
            ({
                let profile = ws.roots(plan.info.target_arch@).profile;
                let before = fingerprint::known_views(old(known)@);
                let f = fingerprint@;
                let g = fingerprint::rewritten(f, None, before);
                let after = before.insert(fingerprint::hash_of(f), g);
                match r {
                    Ok(writes) => {
                        &&& fingerprint::deps_known(f, before)
                        &&& plan@.fingerprint_hash_file() is Ok
                        &&& units::write_views(writes@) == library_crate::fingerprint_writes(
                            profile,
                            plan@.fingerprint_hash_file()->Ok_0,
                            plan@.fingerprint_json_file()->Ok_0,
                            g,
                        )
                        &&& fingerprint::known_views(final(known)@) == after
                    },
                    Err(UnitRestoreError::Rewrite(RewriteError::UnsetPath)) => false,
                    Err(UnitRestoreError::Rewrite(RewriteError::UnknownDependency)) => {
                        &&& !fingerprint::deps_known(f, before)
                        &&& final(known)@ == old(known)@
                    },
                    Err(UnitRestoreError::UnitFile(e)) => {
                        &&& fingerprint::deps_known(f, before)
                        &&& plan@.fingerprint_hash_file() == Err::<Seq<char>, UnitFileError>(e)
                        &&& fingerprint::known_views(final(known)@) == after
                    },
                    Err(UnitRestoreError::RelativeFile) => false,
                }
            }),
    {
        proof {
            law_all_files_or_none(plan@);
        }
        let rewritten = match fingerprint.rewrite(None, known) {
            Ok(f) => f,
            Err(e) => {
                return Err(UnitRestoreError::Rewrite(e));
            },
        };
        library_crate::write_fingerprint(
            &ws.unit_profile_dir(&plan.info),
            plan.fingerprint_hash_file(),
            plan.fingerprint_json_file(),
            rewritten,
        )
    }

    /// What is written to put the unit back, in order, with the fingerprint for this
    /// machine.
    pub open spec fn writes(
        self,
        roots: qualified::Roots,
        plan: BuildScriptExecutionUnitPlanView,
        fingerprint: fingerprint::FingerprintView,
    ) -> Seq<units::UnitWriteView> {
        library_crate::file_writes(roots, self.out_dir_files@) + seq![
            units::UnitWriteView::Text {
                path: path::join(roots.profile, plan.stdout_file()->Ok_0),
                text: build_script::output_text(roots, self.stdout@),
            },
            units::UnitWriteView::File {
                path: path::join(roots.profile, plan.stderr_file()->Ok_0),
                contents: self.stderr@,
                executable: None,
            },
            units::UnitWriteView::Text {
                path: path::join(roots.profile, plan.root_output_file()->Ok_0),
                text: path::join(roots.profile, plan.out_dir()->Ok_0),
            },
        ] + library_crate::fingerprint_writes(
            roots.profile,
            plan.fingerprint_hash_file()->Ok_0,
            plan.fingerprint_json_file()->Ok_0,
            fingerprint,
        )
    }

    /// What is written to put the unit back, in order. The record of the output
    /// directory holds its full path, because Cargo replaces that path in what the
    /// build script printed.
    pub fn restore(
        self,
        ws: &Workspace,
        known: &mut HashMap<u64, Fingerprint>,
        plan: &BuildScriptExecutionUnitPlan,
    ) -> (r: Result<Vec<UnitWrite>, UnitRestoreError>)
        ensures
            r is Err ==> final(known)@ == old(known)@,
            r matches Ok(writes) ==> units::write_views(writes@) == self.writes(
                ws.roots(plan.info.target_arch@),
                plan@,
                fingerprint::rewritten(
                    self.fingerprint@,
                    None,
                    fingerprint::known_views(old(known)@),
                ),
            ),
            ({
                let roots = ws.roots(plan.info.target_arch@);
                let before = fingerprint::known_views(old(known)@);
                let f = self.fingerprint@;
                let g = fingerprint::rewritten(f, None, before);
                match r {
                    Ok(writes) => {
                        &&& library_crate::files_are_absolute(roots, self.out_dir_files@)
                        &&& plan@.info.has_dirs()
                        &&& fingerprint::deps_known(f, before)
                        &&& units::write_views(writes@) == library_crate::file_writes(
                            roots,
                            self.out_dir_files@,
                        ) + seq![
                            units::UnitWriteView::Text {
                                path: path::join(roots.profile, plan@.stdout_file()->Ok_0),
                                text: build_script::output_text(roots, self.stdout@),
                            },
                            units::UnitWriteView::File {
                                path: path::join(roots.profile, plan@.stderr_file()->Ok_0),
                                contents: self.stderr@,
                                executable: None,
                            },
                            units::UnitWriteView::Text {
                                path: path::join(roots.profile, plan@.root_output_file()->Ok_0),
                                text: path::join(roots.profile, plan@.out_dir()->Ok_0),
                            },
                        ] + library_crate::fingerprint_writes(
                            roots.profile,
                            plan@.fingerprint_hash_file()->Ok_0,
                            plan@.fingerprint_json_file()->Ok_0,
                            g,
                        )
                        &&& fingerprint::known_views(final(known)@) == before.insert(
                            fingerprint::hash_of(f),
                            g,
                        )
                    },
                    Err(UnitRestoreError::RelativeFile) => !library_crate::files_are_absolute(
                        roots,
                        self.out_dir_files@,
                    ),
                    Err(UnitRestoreError::UnitFile(e)) => {
                        &&& library_crate::files_are_absolute(roots, self.out_dir_files@)
                        &&& !plan@.info.has_dirs()
                        &&& e == UnitFileError::NotRelative
                    },
                    Err(UnitRestoreError::Rewrite(e)) => {
                        &&& library_crate::files_are_absolute(roots, self.out_dir_files@)
                        &&& plan@.info.has_dirs()
                        &&& e == RewriteError::UnknownDependency
                        &&& !fingerprint::deps_known(f, before)
                    },
                }
            }),
    {
        proof {
            law_all_files_or_none(plan@);
        }
        let profile_dir = ws.unit_profile_dir(&plan.info);
        let mut writes: Vec<UnitWrite> = match library_crate::write_files(
            ws,
            &plan.info,
            self.out_dir_files,
        ) {
            Ok(w) => w,
            Err(e) => {
                return Err(e);
            },
        };
        let ghost outputs = units::write_views(writes@);
        match plan.stdout_file() {
            Err(e) => {
                return Err(UnitRestoreError::UnitFile(e));
            },
            Ok(f) => writes.push(
                UnitWrite::Text {
                    path: profile_dir.join_file(&f),
                    text: self.stdout.reconstruct(ws, &plan.info.target_arch),
                },
            ),
        }
        if let Ok(f) = plan.stderr_file() {
            writes.push(
                UnitWrite::File {
                    path: profile_dir.join_file(&f),
                    contents: self.stderr,
                    executable: None,
                },
            );
        }
        if let (Ok(f), Ok(d)) = (plan.root_output_file(), plan.out_dir()) {
            let out_dir = profile_dir.join_dir(&d);
            writes.push(
                UnitWrite::Text {
                    path: profile_dir.join_file(&f),
                    text: text::copy(out_dir.as_str()),
                },
            );
        }
        let ghost before_fingerprint = units::write_views(writes@);
        let mut more: Vec<UnitWrite> = match Self::restore_fingerprint(
            ws,
            known,
            self.fingerprint,
            plan,
        ) {
            Ok(w) => w,
            Err(e) => {
                return Err(e);
            },
        };
        let ghost fingerprint_part = units::write_views(more@);
        writes.append(&mut more);
        assert(units::write_views(writes@) =~= before_fingerprint + fingerprint_part);
        proof {
            let roots = ws.roots(plan.info.target_arch@);
            assert(units::write_views(writes@) =~= outputs + seq![
                units::UnitWriteView::Text {
                    path: path::join(roots.profile, plan@.stdout_file()->Ok_0),
                    text: build_script::output_text(roots, self.stdout@),
                },
                units::UnitWriteView::File {
                    path: path::join(roots.profile, plan@.stderr_file()->Ok_0),
                    contents: self.stderr@,
                    executable: None,
                },
                units::UnitWriteView::Text {
                    path: path::join(roots.profile, plan@.root_output_file()->Ok_0),
                    text: path::join(roots.profile, plan@.out_dir()->Ok_0),
                },
            ] + library_crate::fingerprint_writes(
                roots.profile,
                plan@.fingerprint_hash_file()->Ok_0,
                plan@.fingerprint_json_file()->Ok_0,
                fingerprint::rewritten(
                    self.fingerprint@,
                    None,
                    fingerprint::known_views(old(known)@),
                ),
            ));
        }
        Ok(writes)
    }
}

/// Everything of a unit that runs a build script is written where Cargo reads it: what the
/// script printed to `build/{package}-{hash}/output`, what it printed as errors to
/// `build/{package}-{hash}/stderr`, the full path of its output directory to
/// `build/{package}-{hash}/root-output`, the hash of the fingerprint, and the fingerprint.
/// The files of the output directory come first.
pub proof fn law_everything_is_written_where_it_is_read(
    files: BuildScriptOutputFiles,
    roots: qualified::Roots,
    plan: BuildScriptExecutionUnitPlanView,
    fingerprint: fingerprint::FingerprintView,
)
    requires
        plan.info.package_name.len() == 0 || plan.info.package_name[0] != '/',
    ensures
        ({
            let unit = plan.info.package_name + "-"@ + plan.info.unit_hash;
            let build = "build/"@ + unit;
            let name = "run-build-script-"@ + plan.build_script_program_name;
            let writes = files.writes(roots, plan, fingerprint);
            let n = files.out_dir_files@.len() as int;
            &&& writes.len() == n + 5
            &&& forall|i: int|
                0 <= i < n ==> #[trigger] writes[i] == (units::UnitWriteView::File {
                    path: qualified::placed(roots, files.out_dir_files@[i].path@),
                    contents: files.out_dir_files@[i].contents@,
                    executable: Some(files.out_dir_files@[i].executable),
                })
            &&& writes[n] == (units::UnitWriteView::Text {
                path: path::join(roots.profile, path::join(build, "output"@)),
                text: build_script::output_text(roots, files.stdout@),
            })
            &&& writes[n + 1] == (units::UnitWriteView::File {
                path: path::join(roots.profile, path::join(build, "stderr"@)),
                contents: files.stderr@,
                executable: None,
            })
            &&& writes[n + 2] == (units::UnitWriteView::Text {
                path: path::join(roots.profile, path::join(build, "root-output"@)),
                text: path::join(roots.profile, path::join(build, "out"@)),
            })
            &&& writes[n + 3] == (units::UnitWriteView::Text {
                path: path::join(roots.profile, path::join(".fingerprint/"@ + unit, name)),
                text: fingerprint::hash_text(fingerprint),
            })
            &&& writes[n + 4] == (units::UnitWriteView::Json {
                path: path::join(
                    roots.profile,
                    path::join(".fingerprint/"@ + unit, name + ".json"@),
                ),
                fingerprint,
            })
        }),
{
    law_files_have_the_names_of_cargo(plan);
}

} // verus!
