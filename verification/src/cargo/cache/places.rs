//! Where the files of a unit go when it is restored.
//!
//! Cargo looks for the files of a unit under fixed names. What was saved of a unit is of
//! use only where each file returns to the name that it was read from.

use vstd::prelude::*;

use crate::cargo::cache;
use crate::cargo::cache::restore;
use crate::cargo::cache::restore::{RestoreError, RestoredFileKind};
use crate::cargo::cache::save;
use crate::cargo::cache::save::UnitContents;
use crate::cargo::fingerprint;
use crate::cargo::path as qualified;
use crate::cargo::units::build_script_compilation;
use crate::cargo::units::build_script_compilation::BuildScriptCompilationUnitPlanView;
use crate::cargo::units::build_script_execution;
use crate::cargo::units::build_script_execution::BuildScriptExecutionUnitPlanView;
use crate::cargo::units::library_crate;
use crate::cargo::units::library_crate::LibraryCrateUnitPlanView;
use crate::cargo::units::UnitFileError;
use crate::cargo::workspace;
use crate::cargo::workspace::Workspace;
use crate::hash;
use crate::path;

verus! {

/// What was read of a unit that runs a build script, saved on one machine and restored on
/// another, goes where Cargo looks for it. What the script printed goes to
/// `build/{package}-{hash}/output`, from which it was read, and what it printed as errors
/// to `build/{package}-{hash}/stderr`. The files of its output directory go to the places
/// of their paths, and stay executable or not. The output directory is made, and its full
/// path is recorded in `build/{package}-{hash}/root-output`. Each file gets what was
/// uploaded under its key. All this fails only where a file has no absolute path.
pub proof fn law_script_runs_go_where_they_are_read(
    here: Workspace,
    plan: workspace::UnitPlanView,
    there: Workspace,
    unit: BuildScriptExecutionUnitPlanView,
    contents: UnitContents,
    known: Map<u64, fingerprint::FingerprintView>,
    mtime: u64,
)
    requires
        contents is BuildScriptExecution,
        unit.info.package_name.len() == 0 || unit.info.package_name[0] != '/',
    ensures
        ({
            let listed = contents->out_dir_files@;
            let stdout = contents->stdout@;
            let stderr = contents->stderr@;
            let n = listed.len() as int;
            let profile = match unit.info.target_arch {
                None => path::join(there.build_dir@, there.profile@),
                Some(triple) => path::join(path::join(there.build_dir@, triple), there.profile@),
            };
            let place = |q: qualified::QualifiedPathView|
                match q {
                    qualified::QualifiedPathView::Rootless(rel) => rel,
                    qualified::QualifiedPathView::RelativeTargetProfile(rel) => path::join(
                        profile,
                        rel,
                    ),
                    qualified::QualifiedPathView::RelativeCargoHome(rel) => path::join(
                        there.cargo_home@,
                        rel,
                    ),
                    qualified::QualifiedPathView::Absolute(abs) => abs,
                };
            let build = "build/"@ + (unit.info.package_name + "-"@ + unit.info.unit_hash);
            let out_dir = path::join(profile, path::join(build, "out"@));
            let uploads = save::uploads_of(contents);
            let files = restore::unit_files(
                there,
                workspace::UnitPlanView::BuildScriptExecution(unit),
                save::portable_of(here, plan, contents, known),
                mtime,
            );
            &&& uploads.len() == n + 2
            &&& forall|i: int|
                0 <= i < n ==> #[trigger] uploads[i] == (
                    hash::blake3_digest(listed[i].contents@),
                    listed[i].contents@,
                )
            &&& uploads[n] == (hash::blake3_digest(stdout), stdout)
            &&& uploads[n + 1] == (hash::blake3_digest(stderr), stderr)
            &&& match files {
                Err(e) => {
                    &&& e == RestoreError::RelativeFile
                    &&& exists|i: int|
                        0 <= i < n && !path::is_abs(place((#[trigger] listed[i]).path@))
                },
                Ok(f) => {
                    &&& forall|i: int|
                        0 <= i < n ==> path::is_abs(place((#[trigger] listed[i]).path@))
                    &&& f.create_dir == Some(out_dir)
                    &&& f.root_output == Some(
                        (path::join(profile, path::join(build, "root-output"@)), out_dir),
                    )
                    &&& f.files.len() == n + 2
                    &&& forall|i: int|
                        0 <= i < n ==> #[trigger] f.files[i] == (restore::FileRestoreKeyView {
                            unit_hash: unit.info.unit_hash,
                            key: hash::blake3_digest(listed[i].contents@),
                            path: place(listed[i].path@),
                            kind: RestoredFileKind::Output { executable: listed[i].executable },
                            link: None,
                            mtime,
                        })
                    &&& f.files[n] == (restore::FileRestoreKeyView {
                        unit_hash: unit.info.unit_hash,
                        key: hash::blake3_digest(stdout),
                        path: path::join(profile, path::join(build, "output"@)),
                        kind: RestoredFileKind::Stdout,
                        link: None,
                        mtime,
                    })
                    &&& f.files[n + 1] == (restore::FileRestoreKeyView {
                        unit_hash: unit.info.unit_hash,
                        key: hash::blake3_digest(stderr),
                        path: path::join(profile, path::join(build, "stderr"@)),
                        kind: RestoredFileKind::Stderr,
                        link: None,
                        mtime,
                    })
                    &&& unit.stdout_file() matches Ok(file) && f.files[n].path == path::join(
                        profile,
                        file,
                    )
                    &&& unit.stderr_file() matches Ok(file) && f.files[n + 1].path == path::join(
                        profile,
                        file,
                    )
                },
            }
        }),
{
    build_script_execution::law_files_have_the_names_of_cargo(unit);
    let roots = there.roots(unit.info.target_arch);
    let listed = contents->out_dir_files@;
    let stored = save::stored_files(listed);
    assert(forall|i: int|
        0 <= i < listed.len() ==> (#[trigger] stored[i]).path == (#[trigger] listed[i]).path@);
    if !restore::all_absolute(roots, stored) {
        let i = choose|i: int|
            0 <= i < stored.len() && !path::is_abs(restore::place_of(roots, #[trigger] stored[i]));
        assert(stored[i].path == listed[i].path@);
    } else {
        assert forall|i: int| 0 <= i < listed.len() implies path::is_abs(
            qualified::placed(roots, (#[trigger] listed[i]).path@),
        ) by {
            assert(stored[i].path == listed[i].path@);
        }
    }
}

/// What was read of a unit that compiles a library crate, saved on one machine and
/// restored on another, goes where Cargo looks for it. The dep-info file goes to
/// `deps/{package}-{hash}.d`, the encoded one to
/// `.fingerprint/{package}-{hash}/dep-lib-{crate}`, and what the compiler wrote to the
/// places of its paths. Each file gets what was uploaded under its key. All this fails
/// only where a file has no absolute path.
pub proof fn law_libraries_go_where_they_are_read(
    here: Workspace,
    plan: workspace::UnitPlanView,
    there: Workspace,
    unit: LibraryCrateUnitPlanView,
    contents: UnitContents,
    known: Map<u64, fingerprint::FingerprintView>,
    mtime: u64,
)
    requires
        contents is LibraryCrate,
        unit.info.package_name.len() == 0 || unit.info.package_name[0] != '/',
    ensures
        ({
            let listed = contents->output_files@;
            let dep_info = contents->LibraryCrate_dep_info_file@;
            let encoded = contents->LibraryCrate_encoded_dep_info_file@;
            let n = listed.len() as int;
            let profile = match unit.info.target_arch {
                None => path::join(there.build_dir@, there.profile@),
                Some(triple) => path::join(path::join(there.build_dir@, triple), there.profile@),
            };
            let place = |q: qualified::QualifiedPathView|
                match q {
                    qualified::QualifiedPathView::Rootless(rel) => rel,
                    qualified::QualifiedPathView::RelativeTargetProfile(rel) => path::join(
                        profile,
                        rel,
                    ),
                    qualified::QualifiedPathView::RelativeCargoHome(rel) => path::join(
                        there.cargo_home@,
                        rel,
                    ),
                    qualified::QualifiedPathView::Absolute(abs) => abs,
                };
            let name = unit.info.package_name + "-"@ + unit.info.unit_hash;
            let uploads = save::uploads_of(contents);
            let files = restore::unit_files(
                there,
                workspace::UnitPlanView::LibraryCrate(unit),
                save::portable_of(here, plan, contents, known),
                mtime,
            );
            &&& uploads.len() == n + 2
            &&& forall|i: int|
                0 <= i < n ==> #[trigger] uploads[i] == (
                    hash::blake3_digest(listed[i].contents@),
                    listed[i].contents@,
                )
            &&& uploads[n] == (hash::blake3_digest(dep_info), dep_info)
            &&& uploads[n + 1] == (hash::blake3_digest(encoded), encoded)
            &&& match files {
                Err(e) => {
                    &&& e == RestoreError::RelativeFile
                    &&& exists|i: int|
                        0 <= i < n && !path::is_abs(place((#[trigger] listed[i]).path@))
                },
                Ok(f) => {
                    &&& forall|i: int|
                        0 <= i < n ==> path::is_abs(place((#[trigger] listed[i]).path@))
                    &&& f.create_dir is None
                    &&& f.root_output is None
                    &&& f.files.len() == n + 2
                    &&& forall|i: int|
                        0 <= i < n ==> #[trigger] f.files[i] == (restore::FileRestoreKeyView {
                            unit_hash: unit.info.unit_hash,
                            key: hash::blake3_digest(listed[i].contents@),
                            path: place(listed[i].path@),
                            kind: RestoredFileKind::Output { executable: listed[i].executable },
                            link: None,
                            mtime,
                        })
                    &&& f.files[n] == (restore::FileRestoreKeyView {
                        unit_hash: unit.info.unit_hash,
                        key: hash::blake3_digest(dep_info),
                        path: path::join(profile, "deps/"@ + name + ".d"@),
                        kind: RestoredFileKind::DepInfo,
                        link: None,
                        mtime,
                    })
                    &&& f.files[n + 1] == (restore::FileRestoreKeyView {
                        unit_hash: unit.info.unit_hash,
                        key: hash::blake3_digest(encoded),
                        path: path::join(
                            profile,
                            path::join(
                                ".fingerprint/"@ + name,
                                "dep-"@ + ("lib-"@ + unit.info.crate_name),
                            ),
                        ),
                        kind: RestoredFileKind::EncodedDepInfo,
                        link: None,
                        mtime,
                    })
                    &&& unit.dep_info_file() matches Ok(file) && f.files[n].path == path::join(
                        profile,
                        file,
                    )
                    &&& unit.encoded_dep_info_file() matches Ok(file) && f.files[n + 1].path
                        == path::join(profile, file)
                },
            }
        }),
{
    library_crate::law_files_have_known_names(unit);
    let roots = there.roots(unit.info.target_arch);
    let listed = contents->output_files@;
    let stored = save::stored_files(listed);
    assert(forall|i: int|
        0 <= i < listed.len() ==> (#[trigger] stored[i]).path == (#[trigger] listed[i]).path@);
    if !restore::all_absolute(roots, stored) {
        let i = choose|i: int|
            0 <= i < stored.len() && !path::is_abs(restore::place_of(roots, #[trigger] stored[i]));
        assert(stored[i].path == listed[i].path@);
    } else {
        assert forall|i: int| 0 <= i < listed.len() implies path::is_abs(
            qualified::placed(roots, (#[trigger] listed[i]).path@),
        ) by {
            assert(stored[i].path == listed[i].path@);
        }
    }
}

/// What was read of a unit that compiles a build script, saved on one machine and
/// restored on another, goes where Cargo looks for it, where `entry` is the name of the
/// script's source file without `.rs`. The program and its dep-info file go to
/// `build/{package}-{hash}`, under the name of the script with underscores for dashes and
/// the hash behind it. The program is linked as `build-script-{entry}`. Each file gets
/// what was uploaded under its key.
pub proof fn law_compiled_scripts_go_where_they_are_read(
    here: Workspace,
    plan: workspace::UnitPlanView,
    there: Workspace,
    unit: BuildScriptCompilationUnitPlanView,
    entry: Seq<char>,
    contents: UnitContents,
    known: Map<u64, fingerprint::FingerprintView>,
    mtime: u64,
)
    requires
        contents is BuildScriptCompilation,
        unit.info.package_name.len() == 0 || unit.info.package_name[0] != '/',
        path::name_of(unit.src_path) == Some(entry + ".rs"@),
    ensures
        ({
            let program = contents->compiled_program@;
            let dep_info = contents->BuildScriptCompilation_dep_info_file@;
            let encoded = contents->BuildScriptCompilation_encoded_dep_info_file@;
            let profile = match unit.info.target_arch {
                None => path::join(there.build_dir@, there.profile@),
                Some(triple) => path::join(path::join(there.build_dir@, triple), there.profile@),
            };
            let name = unit.info.package_name + "-"@ + unit.info.unit_hash;
            let build = "build/"@ + name;
            let module = Seq::new(
                entry.len(),
                |i: int|
                    if entry[i] == '-' {
                        '_'
                    } else {
                        entry[i]
                    },
            );
            let program_name = "build_script_"@ + module + "-"@ + unit.info.unit_hash;
            let uploads = save::uploads_of(contents);
            let files = restore::unit_files(
                there,
                workspace::UnitPlanView::BuildScriptCompilation(unit),
                save::portable_of(here, plan, contents, known),
                mtime,
            );
            &&& uploads.len() == 3
            &&& uploads[0] == (hash::blake3_digest(program), program)
            &&& uploads[1] == (hash::blake3_digest(dep_info), dep_info)
            &&& uploads[2] == (hash::blake3_digest(encoded), encoded)
            &&& files matches Ok(f) && {
                &&& f.create_dir is None
                &&& f.root_output is None
                &&& f.files.len() == 3
                &&& f.files[0] == (restore::FileRestoreKeyView {
                    unit_hash: unit.info.unit_hash,
                    key: hash::blake3_digest(program),
                    path: path::join(profile, path::join(build, program_name)),
                    kind: RestoredFileKind::Program,
                    link: Some(path::join(profile, path::join(build, "build-script-"@ + entry))),
                    mtime,
                })
                &&& f.files[1] == (restore::FileRestoreKeyView {
                    unit_hash: unit.info.unit_hash,
                    key: hash::blake3_digest(dep_info),
                    path: path::join(profile, path::join(build, program_name + ".d"@)),
                    kind: RestoredFileKind::DepInfo,
                    link: None,
                    mtime,
                })
                &&& f.files[2] == (restore::FileRestoreKeyView {
                    unit_hash: unit.info.unit_hash,
                    key: hash::blake3_digest(encoded),
                    path: path::join(
                        profile,
                        path::join(
                            ".fingerprint/"@ + name,
                            "dep-"@ + ("build-script-build-script-"@ + entry),
                        ),
                    ),
                    kind: RestoredFileKind::EncodedDepInfo,
                    link: None,
                    mtime,
                })
                &&& unit.program_file() matches Ok(file) && f.files[0].path == path::join(
                    profile,
                    file,
                )
                &&& unit.dep_info_file() matches Ok(file) && f.files[1].path == path::join(
                    profile,
                    file,
                )
                &&& unit.encoded_dep_info_file() matches Ok(file) && f.files[2].path == path::join(
                    profile,
                    file,
                )
            }
        }),
{
    build_script_compilation::law_files_have_the_names_of_cargo(unit, entry);
}

/// What was saved of a unit of one kind is not restored as one of another kind. A unit
/// whose package has a name that begins at the root directory has no files to restore.
pub proof fn law_units_are_restored_by_plans_of_their_kind(
    ws: Workspace,
    unit: workspace::UnitPlanView,
    saved: cache::SavedUnitView,
    mtime: u64,
)
    ensures
        ({
            let same_kind = match saved {
                cache::SavedUnitView::LibraryCrate { .. } => unit is LibraryCrate,
                cache::SavedUnitView::BuildScriptCompilation { .. } => {
                    unit is BuildScriptCompilation
                },
                cache::SavedUnitView::BuildScriptExecution { .. } => unit is BuildScriptExecution,
            };
            let package = unit.info().package_name;
            let files = restore::unit_files(ws, unit, saved, mtime);
            &&& files == Err::<restore::UnitFilesView, RestoreError>(
                RestoreError::UnitTypeMismatch,
            ) <==> !same_kind
            &&& package.len() > 0 && package[0] == '/' ==> files is Err
        }),
{
    workspace::law_directories_of_a_unit(unit.info());
}

/// All files of a unit are touched together, and no others. Of a library crate, these are
/// what the compiler wrote, the two dep-info files and the two files of the fingerprint.
pub proof fn law_touched_files_of_a_library(unit: LibraryCrateUnitPlanView, profile: Seq<char>)
    requires
        unit.info.package_name.len() == 0 || unit.info.package_name[0] != '/',
    ensures
        ({
            let name = unit.info.package_name + "-"@ + unit.info.unit_hash;
            let fingerprint = ".fingerprint/"@ + name;
            let lib = "lib-"@ + unit.info.crate_name;
            workspace::UnitPlanView::LibraryCrate(unit).touched(profile) == Ok::<
                (Seq<Seq<char>>, Option<Seq<char>>),
                UnitFileError,
            >(
                (
                    unit.outputs + seq![
                        path::join(profile, "deps/"@ + name + ".d"@),
                        path::join(profile, path::join(fingerprint, "dep-"@ + lib)),
                        path::join(profile, path::join(fingerprint, lib + ".json"@)),
                        path::join(profile, path::join(fingerprint, lib)),
                    ],
                    None,
                ),
            )
        }),
{
    library_crate::law_files_have_known_names(unit);
}

/// All files of a unit are touched together, and no others. Of a compiled build script,
/// these are the program, its hard link, the two dep-info files and the two files of the
/// fingerprint.
pub proof fn law_touched_files_of_a_compiled_script(
    unit: BuildScriptCompilationUnitPlanView,
    entry: Seq<char>,
    profile: Seq<char>,
)
    requires
        unit.info.package_name.len() == 0 || unit.info.package_name[0] != '/',
        path::name_of(unit.src_path) == Some(entry + ".rs"@),
    ensures
        ({
            let name = unit.info.package_name + "-"@ + unit.info.unit_hash;
            let build = "build/"@ + name;
            let fingerprint = ".fingerprint/"@ + name;
            let module = Seq::new(
                entry.len(),
                |i: int|
                    if entry[i] == '-' {
                        '_'
                    } else {
                        entry[i]
                    },
            );
            let program = "build_script_"@ + module + "-"@ + unit.info.unit_hash;
            let script = "build-script-build-script-"@ + entry;
            workspace::UnitPlanView::BuildScriptCompilation(unit).touched(profile) == Ok::<
                (Seq<Seq<char>>, Option<Seq<char>>),
                UnitFileError,
            >(
                (
                    seq![
                        path::join(profile, path::join(build, program)),
                        path::join(profile, path::join(build, "build-script-"@ + entry)),
                        path::join(profile, path::join(build, program + ".d"@)),
                        path::join(profile, path::join(fingerprint, "dep-"@ + script)),
                        path::join(profile, path::join(fingerprint, script + ".json"@)),
                        path::join(profile, path::join(fingerprint, script)),
                    ],
                    None,
                ),
            )
        }),
{
    build_script_compilation::law_files_have_the_names_of_cargo(unit, entry);
}

/// All files of a unit are touched together, and no others. Of a build script that was
/// run, these are what it printed, the record of its output directory, the two files of
/// the fingerprint, and whatever the output directory holds.
pub proof fn law_touched_files_of_a_script_run(
    unit: BuildScriptExecutionUnitPlanView,
    profile: Seq<char>,
)
    requires
        unit.info.package_name.len() == 0 || unit.info.package_name[0] != '/',
    ensures
        ({
            let name = unit.info.package_name + "-"@ + unit.info.unit_hash;
            let build = "build/"@ + name;
            let fingerprint = ".fingerprint/"@ + name;
            let run = "run-build-script-"@ + unit.build_script_program_name;
            workspace::UnitPlanView::BuildScriptExecution(unit).touched(profile) == Ok::<
                (Seq<Seq<char>>, Option<Seq<char>>),
                UnitFileError,
            >(
                (
                    seq![
                        path::join(profile, path::join(build, "output"@)),
                        path::join(profile, path::join(build, "stderr"@)),
                        path::join(profile, path::join(build, "root-output"@)),
                        path::join(profile, path::join(fingerprint, run + ".json"@)),
                        path::join(profile, path::join(fingerprint, run)),
                    ],
                    Some(path::join(profile, path::join(build, "out"@))),
                ),
            )
        }),
{
    build_script_execution::law_files_have_the_names_of_cargo(unit);
}

} // verus!
