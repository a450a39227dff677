//! Units that compile a library crate.

use std::collections::HashMap;
use vstd::prelude::*;
use vstd::string::*;

use crate::cargo::cache::SavedFile;
use crate::cargo::dep_info;
use crate::cargo::dep_info::DepInfo;
use crate::cargo::fingerprint;
use crate::cargo::fingerprint::{Fingerprint, RewriteError};
use crate::cargo::path as qualified;
use crate::cargo::path::{Existing, QualifiedPath};
use crate::cargo::units;
use crate::cargo::units::{ReadError, TouchPlan, UnitFileError, UnitRestoreError, UnitWrite};
use crate::cargo::workspace;
use crate::cargo::workspace::{UnitPlanInfo, Workspace};
use crate::path;
use crate::path::{AbsDirPath, AbsFilePath, RelFilePath};
use crate::text;

verus! {

/// The plan of a unit that compiles a library crate.
#[derive(Debug)]
pub struct LibraryCrateUnitPlan {
    pub info: UnitPlanInfo,
    /// The main source file of the crate.
    pub src_path: AbsFilePath,
    /// The files that the compiler writes, without debugging files.
    pub outputs: Vec<AbsFilePath>,
}

/// A [`LibraryCrateUnitPlan`] in terms of characters and sequences.
#[verifier::ext_equal]
pub struct LibraryCrateUnitPlanView {
    pub info: workspace::UnitPlanInfoView,
    pub src_path: Seq<char>,
    pub outputs: Seq<Seq<char>>,
}

impl View for LibraryCrateUnitPlan {
    type V = LibraryCrateUnitPlanView;

    open spec fn view(&self) -> LibraryCrateUnitPlanView {
        LibraryCrateUnitPlanView {
            info: self.info@,
            src_path: self.src_path@,
            outputs: units::abs_views(self.outputs@),
        }
    }
}

impl Clone for LibraryCrateUnitPlan {
    fn clone(&self) -> (r: Self)
        ensures
            r@ == self@,
    {
        LibraryCrateUnitPlan {
            info: self.info.clone(),
            src_path: self.src_path.clone(),
            outputs: units::copy_files(&self.outputs),
        }
    }
}

/// A file of the given name in the unit's fingerprint directory.
pub open spec fn fingerprint_file(info: workspace::UnitPlanInfoView, name: Seq<char>) -> Result<
    Seq<char>,
    UnitFileError,
> {
    if info.has_dirs() && !path::is_abs(name) {
        Ok(path::join(info.fingerprint_dir(), name))
    } else {
        Err(UnitFileError::NotRelative)
    }
}

impl LibraryCrateUnitPlanView {
    /// `deps/{package}-{hash}.d`
    pub open spec fn dep_info_file(self) -> Result<Seq<char>, UnitFileError> {
        let name = self.info.package_name + "-"@ + self.info.unit_hash + ".d"@;
        if path::is_abs(name) {
            Err(UnitFileError::NotRelative)
        } else {
            Ok(path::join("deps"@, name))
        }
    }

    /// `.fingerprint/{package}-{hash}/dep-lib-{crate}`
    pub open spec fn encoded_dep_info_file(self) -> Result<Seq<char>, UnitFileError> {
        fingerprint_file(self.info, "dep-lib-"@ + self.info.crate_name)
    }

    /// `.fingerprint/{package}-{hash}/lib-{crate}.json`
    pub open spec fn fingerprint_json_file(self) -> Result<Seq<char>, UnitFileError> {
        fingerprint_file(self.info, "lib-"@ + self.info.crate_name + ".json"@)
    }

    /// `.fingerprint/{package}-{hash}/lib-{crate}`
    pub open spec fn fingerprint_hash_file(self) -> Result<Seq<char>, UnitFileError> {
        fingerprint_file(self.info, "lib-"@ + self.info.crate_name)
    }

    /// The files that are touched together.
    pub open spec fn touched(self, profile_dir: Seq<char>) -> Result<
        Seq<Seq<char>>,
        UnitFileError,
    > {
        match (
            self.dep_info_file(),
            self.encoded_dep_info_file(),
            self.fingerprint_json_file(),
            self.fingerprint_hash_file(),
        ) {
            (Ok(a), Ok(b), Ok(c), Ok(d)) => Ok(
                self.outputs + seq![
                    path::join(profile_dir, a),
                    path::join(profile_dir, b),
                    path::join(profile_dir, c),
                    path::join(profile_dir, d),
                ],
            ),
            _ => Err(UnitFileError::NotRelative),
        }
    }
}

/// The files of a unit that compiles a library crate have known names: its dep-info file
/// lies in `deps` and is named after the package and the hash. The encoded dep-info file
/// and the fingerprint lie in `.fingerprint/{package}-{hash}` and are named after the
/// crate.
pub proof fn law_files_have_known_names(plan: LibraryCrateUnitPlanView)
    requires
        plan.info.package_name.len() == 0 || plan.info.package_name[0] != '/',
    ensures
        ({
            let unit = plan.info.package_name + "-"@ + plan.info.unit_hash;
            let fingerprint = ".fingerprint/"@ + unit;
            let name = "lib-"@ + plan.info.crate_name;
            &&& plan.dep_info_file() == Ok::<Seq<char>, UnitFileError>("deps/"@ + unit + ".d"@)
            &&& plan.encoded_dep_info_file() == Ok::<Seq<char>, UnitFileError>(
                path::join(fingerprint, "dep-"@ + name),
            )
            &&& plan.fingerprint_hash_file() == Ok::<Seq<char>, UnitFileError>(
                path::join(fingerprint, name),
            )
            &&& plan.fingerprint_json_file() == Ok::<Seq<char>, UnitFileError>(
                path::join(fingerprint, name + ".json"@),
            )
        }),
{
    workspace::law_directories_of_a_unit(plan.info);
    reveal_strlit("-");
    reveal_strlit("deps");
    reveal_strlit("deps/");
    reveal_strlit("dep-lib-");
    reveal_strlit("dep-");
    reveal_strlit("lib-");
    let unit = plan.info.package_name + "-"@ + plan.info.unit_hash;
    let name = plan.info.package_name + "-"@ + plan.info.unit_hash + ".d"@;
    if plan.info.package_name.len() > 0 {
        assert(name[0] == plan.info.package_name[0]);
    } else {
        assert(name[0] == '-');
    }
    assert(path::join("deps"@, name) =~= "deps/"@ + unit + ".d"@);
    assert("dep-lib-"@ + plan.info.crate_name =~= "dep-"@ + ("lib-"@ + plan.info.crate_name));
    assert("lib-"@ + plan.info.crate_name + ".json"@ =~= ("lib-"@ + plan.info.crate_name)
        + ".json"@);
}

pub(crate) fn fingerprint_path(info: &UnitPlanInfo, name: &str) -> (r: Result<
    RelFilePath,
    UnitFileError,
>)
    ensures
        units::file_view(r) == fingerprint_file(info@, name@),
{
    match info.fingerprint_dir() {
        Ok(dir) => units::file_error(dir.try_join_file(name)),
        Err(_) => Err(UnitFileError::NotRelative),
    }
}

impl LibraryCrateUnitPlan {
    /// The dep-info file, relative to the profile directory.
    pub fn dep_info_file(&self) -> (r: Result<RelFilePath, UnitFileError>)
        ensures
            units::file_view(r) == self@.dep_info_file(),
    {
        let name: String = text::concat4(
            self.info.package_name.as_str(),
            "-",
            self.info.unit_hash.text.as_str(),
            ".d",
        );
        match self.info.deps_dir() {
            Ok(dir) => units::file_error(dir.try_join_file(name.as_str())),
            Err(_) => Err(UnitFileError::NotRelative),
        }
    }

    /// The encoded dep-info file, relative to the profile directory.
    pub fn encoded_dep_info_file(&self) -> (r: Result<RelFilePath, UnitFileError>)
        ensures
            units::file_view(r) == self@.encoded_dep_info_file(),
    {
        let name: String = text::concat("dep-lib-", self.info.crate_name.as_str());
        fingerprint_path(&self.info, name.as_str())
    }

    /// The fingerprint, relative to the profile directory.
    pub fn fingerprint_json_file(&self) -> (r: Result<RelFilePath, UnitFileError>)
        ensures
            units::file_view(r) == self@.fingerprint_json_file(),
    {
        let name: String = text::concat3("lib-", self.info.crate_name.as_str(), ".json");
        fingerprint_path(&self.info, name.as_str())
    }

    /// The hash of the fingerprint, relative to the profile directory.
    pub fn fingerprint_hash_file(&self) -> (r: Result<RelFilePath, UnitFileError>)
        ensures
            units::file_view(r) == self@.fingerprint_hash_file(),
    {
        let name: String = text::concat("lib-", self.info.crate_name.as_str());
        fingerprint_path(&self.info, name.as_str())
    }

    /// The files of this unit whose modification times are set together.
    pub fn touch_plan(&self, ws: &Workspace) -> (r: Result<TouchPlan, UnitFileError>)
        ensures
            match r {
                Ok(plan) => {
                    &&& plan.walk is None
                    &&& self@.touched(ws.spec_arch_profile_dir(self.info.target_arch@)) == Ok::<
                        Seq<Seq<char>>,
                        UnitFileError,
                    >(units::abs_views(plan.files@))
                },
                Err(e) => self@.touched(ws.spec_arch_profile_dir(self.info.target_arch@)) == Err::<
                    Seq<Seq<char>>,
                    UnitFileError,
                >(e),
            },
    {
        let profile_dir = ws.unit_profile_dir(&self.info);
        let a = self.dep_info_file();
        let b = self.encoded_dep_info_file();
        let c = self.fingerprint_json_file();
        let d = self.fingerprint_hash_file();
        match (a, b, c, d) {
            (Ok(a), Ok(b), Ok(c), Ok(d)) => {
                let mut files: Vec<AbsFilePath> = units::copy_files(&self.outputs);
                files.push(profile_dir.join_file(&a));
                files.push(profile_dir.join_file(&b));
                files.push(profile_dir.join_file(&c));
                files.push(profile_dir.join_file(&d));
                proof {
                    let want = self@.touched(profile_dir@)->Ok_0;
                    assert(units::abs_views(files@) =~= want);
                }
                Ok(TouchPlan { files, walk: None })
            },
            _ => Err(UnitFileError::NotRelative),
        }
    }
}

/// The files of a unit that compiles a library crate.
#[derive(Debug)]
pub struct LibraryFiles {
    /// The fingerprint, from which its files are made again.
    pub fingerprint: Fingerprint,
    /// What the compiler wrote.
    pub output_files: Vec<SavedFile>,
    pub dep_info_file: DepInfo,
    /// The encoded dep-info file, which holds only relative paths.
    pub encoded_dep_info_file: Vec<u8>,
}

/// The contents of a file, and whether it is executable.
pub struct FileContents {
    pub contents: Vec<u8>,
    pub executable: bool,
}

/// Whether `saved` are files with the given paths and contents.
pub open spec fn are_saved_files(
    roots: qualified::Roots,
    saved: Seq<SavedFile>,
    paths: Seq<Seq<char>>,
    read: Seq<FileContents>,
) -> bool {
    &&& saved.len() == paths.len()
    &&& forall|i: int|
        #![trigger saved[i]]
        0 <= i < saved.len() ==> {
            &&& saved[i].path@ == qualified::qualify_abs(roots, paths[i])
            &&& saved[i].contents@ == read[i].contents@
            &&& saved[i].executable == read[i].executable
        }
}

/// Files with the given paths and contents.
pub(crate) fn saved_files(
    ws: &Workspace,
    info: &UnitPlanInfo,
    paths: &Vec<AbsFilePath>,
    read: Vec<FileContents>,
) -> (r: Vec<SavedFile>)
    requires
        paths@.len() == read@.len(),
    ensures
        are_saved_files(
            ws.roots(info.target_arch@),
            r@,
            units::abs_views(paths@),
            read@,
        ),
{
    let ghost all = read@;
    let ghost roots = ws.roots(info.target_arch@);
    let ghost names = units::abs_views(paths@);
    let mut rest: Vec<FileContents> = read;
    let mut r: Vec<SavedFile> = Vec::new();
    let mut i: usize = 0;
    assert(all.skip(0) =~= all);
    while i < paths.len()
        invariant
            i <= paths.len(),
            i == r.len(),
            paths.len() == all.len(),
            names == units::abs_views(paths@),
            roots == ws.roots(info.target_arch@),
            rest@ == all.skip(i as int),
            forall|j: int|
                #![trigger r@[j]]
                0 <= j < i ==> {
                    &&& r@[j].path@ == qualified::qualify_abs(roots, names[j])
                    &&& r@[j].contents@ == all[j].contents@
                    &&& r@[j].executable == all[j].executable
                },
        decreases paths.len() - i,
    {
        let file: FileContents = rest.remove(0);
        assert(file == all[i as int]);
        assert(rest@ =~= all.skip(i + 1));
        r.push(
            SavedFile {
                path: QualifiedPath::parse_abs(ws, &info.target_arch, &paths[i]),
                contents: file.contents,
                executable: file.executable,
            },
        );
        i += 1;
    }
    r
}

/// The writes that put files back, each at its place on this machine.
pub open spec fn file_writes(
    roots: qualified::Roots,
    files: Seq<SavedFile>,
) -> Seq<units::UnitWriteView> {
    Seq::new(
        files.len(),
        |i: int|
            units::UnitWriteView::File {
                path: qualified::placed(roots, files[i].path@),
                contents: files[i].contents@,
                executable: Some(files[i].executable),
            },
    )
}

/// Files that were read on a machine are put back there at the paths and with the
/// contents that they had, where each path is stable.
pub proof fn law_read_files_are_put_back(
    roots: qualified::Roots,
    saved: Seq<SavedFile>,
    paths: Seq<Seq<char>>,
    read: Seq<FileContents>,
    i: int,
)
    requires
        are_saved_files(roots, saved, paths, read),
        0 <= i < paths.len(),
        path::is_abs(paths[i]),
        qualified::is_stable(roots, Set::empty(), paths[i]),
    ensures
        file_writes(roots, saved)[i] == (units::UnitWriteView::File {
            path: paths[i],
            contents: read[i].contents@,
            executable: Some(read[i].executable),
        }),
{
    qualified::law_stable_path_round_trips(roots, Set::empty(), paths[i]);
    assert(saved[i].path@ == qualified::qualify_abs(roots, paths[i]));
}

/// Whether every file belongs to an absolute path.
pub open spec fn files_are_absolute(roots: qualified::Roots, files: Seq<SavedFile>) -> bool {
    forall|i: int|
        0 <= i < files.len() ==> path::is_abs(
            qualified::placed(roots, (#[trigger] files[i]).path@),
        )
}

/// The writes that put files back.
pub(crate) fn write_files(ws: &Workspace, info: &UnitPlanInfo, files: Vec<SavedFile>) -> (r: Result<
    Vec<UnitWrite>,
    UnitRestoreError,
>)
    ensures
        ({
            let roots = ws.roots(info.target_arch@);
            match r {
                Ok(writes) => files_are_absolute(roots, files@) && units::write_views(writes@)
                    == file_writes(roots, files@),
                Err(e) => !files_are_absolute(roots, files@) && e
                    == UnitRestoreError::RelativeFile,
            }
        }),
{
    let ghost all = files@;
    let ghost roots = ws.roots(info.target_arch@);
    let n: usize = files.len();
    let mut rest: Vec<SavedFile> = files;
    let mut r: Vec<UnitWrite> = Vec::new();
    let mut i: usize = 0;
    assert(all.skip(0) =~= all);
    while i < n
        invariant
            i <= n,
            i == r.len(),
            n == all.len(),
            all == files@,
            roots == ws.roots(info.target_arch@),
            rest@ == all.skip(i as int),
            forall|j: int|
                0 <= j < i ==> path::is_abs(
                    qualified::placed(roots, (#[trigger] all[j]).path@),
                ),
            forall|j: int| 0 <= j < i ==> #[trigger] r@[j]@ == file_writes(roots, all)[j],
        decreases n - i,
    {
        let file: SavedFile = rest.remove(0);
        assert(file == all[i as int]);
        assert(rest@ =~= all.skip(i + 1));
        let place: String = file.path.reconstruct(ws, info);
        match AbsFilePath::new(place.as_str()) {
            Ok(p) => {
                r.push(
                    UnitWrite::File {
                        path: p,
                        contents: file.contents,
                        executable: Some(file.executable),
                    },
                );
            },
            Err(_) => {
                assert(!path::is_abs(qualified::placed(roots, all[i as int].path@)));
                return Err(UnitRestoreError::RelativeFile);
            },
        }
        i += 1;
    }
    assert(units::write_views(r@) =~= file_writes(roots, all));
    Ok(r)
}

/// The two writes of a rewritten fingerprint: the text of its hash, and itself.
pub open spec fn fingerprint_writes(
    profile: Seq<char>,
    hash_file: Seq<char>,
    json_file: Seq<char>,
    f: fingerprint::FingerprintView,
) -> Seq<units::UnitWriteView> {
    seq![
        units::UnitWriteView::Text {
            path: path::join(profile, hash_file),
            text: fingerprint::hash_text(f),
        },
        units::UnitWriteView::Json { path: path::join(profile, json_file), fingerprint: f },
    ]
}

/// The two writes of a fingerprint that was rewritten, where its files can be named.
pub(crate) fn write_fingerprint(
    profile_dir: &AbsDirPath,
    hash_file: Result<RelFilePath, UnitFileError>,
    json_file: Result<RelFilePath, UnitFileError>,
    rewritten: Fingerprint,
) -> (r: Result<Vec<UnitWrite>, UnitRestoreError>)
    ensures
        match r {
            Ok(writes) => {
                &&& hash_file is Ok
                &&& json_file is Ok
                &&& units::write_views(writes@) == fingerprint_writes(
                    profile_dir@,
                    hash_file->Ok_0@,
                    json_file->Ok_0@,
                    fingerprint::memoized(rewritten@),
                )
            },
            Err(UnitRestoreError::UnitFile(e)) => {
                ||| hash_file == Err::<RelFilePath, UnitFileError>(e)
                ||| hash_file is Ok && json_file == Err::<RelFilePath, UnitFileError>(e)
            },
            Err(_) => false,
        },
{
    let hash_file = match hash_file {
        Ok(f) => profile_dir.join_file(&f),
        Err(e) => {
            return Err(UnitRestoreError::UnitFile(e));
        },
    };
    let json_file = match json_file {
        Ok(f) => profile_dir.join_file(&f),
        Err(e) => {
            return Err(UnitRestoreError::UnitFile(e));
        },
    };
    let mut fingerprint: Fingerprint = rewritten;
    let mut writes: Vec<UnitWrite> = Vec::new();
    writes.push(UnitWrite::Text { path: hash_file, text: fingerprint.fingerprint_hash() });
    writes.push(UnitWrite::Json { path: json_file, fingerprint });
    Ok(writes)
}

impl LibraryCrateUnitPlan {
    /// Puts together what was read of this unit's files. The contents of the outputs
    /// are given in their order. The fingerprint is checked against its hash file.
    pub fn read(
        &self,
        ws: &Workspace,
        outputs: Vec<FileContents>,
        dep_info: &str,
        existing: &Existing,
        encoded_dep_info_file: Vec<u8>,
        fingerprint: Fingerprint,
        hash_file: &str,
    ) -> (r: Result<LibraryFiles, ReadError>)
        requires
            outputs@.len() == self.outputs@.len(),
        ensures
            ({
                let roots = ws.roots(self.info.target_arch@);
                let parsed = dep_info::parsed_file(roots, existing@, dep_info@);
                match r {
                    Ok(files) => {
                        &&& are_saved_files(
                            roots,
                            files.output_files@,
                            self@.outputs,
                            outputs@,
                        )
                        &&& parsed == Ok::<Seq<dep_info::DepInfoLineView>, int>(
                            files.dep_info_file@,
                        )
                        &&& files.encoded_dep_info_file@ == encoded_dep_info_file@
                        &&& files.fingerprint@ == fingerprint::memoized(fingerprint@)
                        &&& hash_file@ == fingerprint::hash_text(fingerprint@)
                    },
                    Err(ReadError::DepInfo(e)) => parsed == Err::<
                        Seq<dep_info::DepInfoLineView>,
                        int,
                    >(e.line as int),
                    Err(ReadError::FingerprintHashMismatch) => parsed is Ok && hash_file@
                        != fingerprint::hash_text(fingerprint@),
                }
            }),
    {
        let output_files = saved_files(ws, &self.info, &self.outputs, outputs);
        let dep_info_file = match DepInfo::parse(ws, &self.info.target_arch, existing, dep_info) {
            Ok(d) => d,
            Err(e) => {
                return Err(ReadError::DepInfo(e));
            },
        };
        let mut fingerprint: Fingerprint = fingerprint;
        if !fingerprint.matches_hash_file(hash_file) {
            return Err(ReadError::FingerprintHashMismatch);
        }
        Ok(LibraryFiles { fingerprint, output_files, dep_info_file, encoded_dep_info_file })
    }
}

impl LibraryFiles {
    /// What is written to put the fingerprint back: it is rewritten for this machine,
    /// and from then on known as the replacement of the one that was saved.
    pub fn restore_fingerprint(
        ws: &Workspace,
        known: &mut HashMap<u64, Fingerprint>,
        fingerprint: Fingerprint,
        plan: &LibraryCrateUnitPlan,
    ) -> (r: Result<Vec<UnitWrite>, UnitRestoreError>)
        ensures
            ({
                let profile = ws.roots(plan.info.target_arch@).profile;
                let before = fingerprint::known_views(old(known)@);
                let f = fingerprint@;
                let g = fingerprint::rewritten(f, Some(fingerprint::path_hash(plan.src_path@)), before);
                let after = before.insert(fingerprint::hash_of(f), g);
                match r {
                    Ok(writes) => {
                        &&& f.path != 0
                        &&& fingerprint::deps_known(f, before)
                        &&& plan@.fingerprint_hash_file() is Ok
                        &&& units::write_views(writes@) == fingerprint_writes(
                            profile,
                            plan@.fingerprint_hash_file()->Ok_0,
                            plan@.fingerprint_json_file()->Ok_0,
                            g,
                        )
                        &&& fingerprint::known_views(final(known)@) == after
                    },
                    Err(UnitRestoreError::Rewrite(RewriteError::UnsetPath)) => {
                        &&& f.path == 0
                        &&& final(known)@ == old(known)@
                    },
                    Err(UnitRestoreError::Rewrite(RewriteError::UnknownDependency)) => {
                        &&& f.path != 0
                        &&& !fingerprint::deps_known(f, before)
                        &&& final(known)@ == old(known)@
                    },
                    Err(UnitRestoreError::UnitFile(e)) => {
                        &&& f.path != 0
                        &&& fingerprint::deps_known(f, before)
                        &&& plan@.fingerprint_hash_file() == Err::<Seq<char>, UnitFileError>(e)
                        &&& fingerprint::known_views(final(known)@) == after
                    },
                    Err(UnitRestoreError::RelativeFile) => false,
                }
            }),
    {
        proof {
            reveal_strlit("lib-");
        }
        let rewritten = match fingerprint.rewrite(Some(plan.src_path.clone()), known) {
            Ok(f) => f,
            Err(e) => {
                return Err(UnitRestoreError::Rewrite(e));
            },
        };
        write_fingerprint(
            &ws.unit_profile_dir(&plan.info),
            plan.fingerprint_hash_file(),
            plan.fingerprint_json_file(),
            rewritten,
        )
    }

    /// What is written to put the unit back, in order, with the fingerprint for this
    /// machine.
    pub open spec fn writes(
        self,
        roots: qualified::Roots,
        plan: LibraryCrateUnitPlanView,
        fingerprint: fingerprint::FingerprintView,
    ) -> Seq<units::UnitWriteView> {
        file_writes(roots, self.output_files@) + seq![
            units::UnitWriteView::File {
                path: path::join(roots.profile, plan.encoded_dep_info_file()->Ok_0),
                contents: self.encoded_dep_info_file@,
                executable: None,
            },
            units::UnitWriteView::Text {
                path: path::join(roots.profile, plan.dep_info_file()->Ok_0),
                text: dep_info::file_text(roots, self.dep_info_file@),
            },
        ] + fingerprint_writes(
            roots.profile,
            plan.fingerprint_hash_file()->Ok_0,
            plan.fingerprint_json_file()->Ok_0,
            fingerprint,
        )
    }

    /// What is written to put the unit back, in order.
    pub fn restore(
        self,
        ws: &Workspace,
        known: &mut HashMap<u64, Fingerprint>,
        plan: &LibraryCrateUnitPlan,
    ) -> (r: Result<Vec<UnitWrite>, UnitRestoreError>)
        ensures
            r is Err ==> final(known)@ == old(known)@,
            r matches Ok(writes) ==> units::write_views(writes@) == self.writes(
                ws.roots(plan.info.target_arch@),
                plan@,
                fingerprint::rewritten(
                    self.fingerprint@,
                    Some(fingerprint::path_hash(plan.src_path@)),
                    fingerprint::known_views(old(known)@),
                ),
            ),
            ({
                let roots = ws.roots(plan.info.target_arch@);
                let before = fingerprint::known_views(old(known)@);
                let f = self.fingerprint@;
                let g = fingerprint::rewritten(
                    f,
                    Some(fingerprint::path_hash(plan.src_path@)),
                    before,
                );
                let files_ok = plan@.encoded_dep_info_file() is Ok && plan@.dep_info_file() is Ok;
                match r {
                    Ok(writes) => {
                        &&& files_are_absolute(roots, self.output_files@)
                        &&& files_ok
                        &&& f.path != 0
                        &&& fingerprint::deps_known(f, before)
                        &&& units::write_views(writes@) == file_writes(roots, self.output_files@)
                            + seq![
                            units::UnitWriteView::File {
                                path: path::join(
                                    roots.profile,
                                    plan@.encoded_dep_info_file()->Ok_0,
                                ),
                                contents: self.encoded_dep_info_file@,
                                executable: None,
                            },
                            units::UnitWriteView::Text {
                                path: path::join(roots.profile, plan@.dep_info_file()->Ok_0),
                                text: dep_info::file_text(roots, self.dep_info_file@),
                            },
                        ] + fingerprint_writes(
                            roots.profile,
                            plan@.fingerprint_hash_file()->Ok_0,
                            plan@.fingerprint_json_file()->Ok_0,
                            g,
                        )
                        &&& fingerprint::known_views(final(known)@) == before.insert(
                            fingerprint::hash_of(f),
                            g,
                        )
                    },
                    Err(UnitRestoreError::RelativeFile) => !files_are_absolute(
                        roots,
                        self.output_files@,
                    ),
                    Err(UnitRestoreError::UnitFile(e)) => {
                        &&& files_are_absolute(roots, self.output_files@)
                        &&& !files_ok
                        &&& e == UnitFileError::NotRelative
                    },
                    Err(UnitRestoreError::Rewrite(RewriteError::UnsetPath)) => {
                        &&& files_are_absolute(roots, self.output_files@)
                        &&& files_ok
                        &&& f.path == 0
                    },
                    Err(UnitRestoreError::Rewrite(RewriteError::UnknownDependency)) => {
                        &&& files_are_absolute(roots, self.output_files@)
                        &&& files_ok
                        &&& f.path != 0
                        &&& !fingerprint::deps_known(f, before)
                    },
                }
            }),
    {
        let profile_dir = ws.unit_profile_dir(&plan.info);
        let mut writes: Vec<UnitWrite> = match write_files(ws, &plan.info, self.output_files) {
            Ok(w) => w,
            Err(e) => {
                return Err(e);
            },
        };
        let ghost outputs = units::write_views(writes@);
        match plan.encoded_dep_info_file() {
            Err(e) => {
                return Err(UnitRestoreError::UnitFile(e));
            },
            Ok(f) => writes.push(
                UnitWrite::File {
                    path: profile_dir.join_file(&f),
                    contents: self.encoded_dep_info_file,
                    executable: None,
                },
            ),
        }
        match plan.dep_info_file() {
            Err(e) => {
                return Err(UnitRestoreError::UnitFile(e));
            },
            Ok(f) => writes.push(
                UnitWrite::Text {
                    path: profile_dir.join_file(&f),
                    text: self.dep_info_file.reconstruct(ws, &plan.info.target_arch),
                },
            ),
        }
        proof {
            reveal_strlit("lib-");
        }
        let ghost before_fingerprint = units::write_views(writes@);
        let mut more: Vec<UnitWrite> = match Self::restore_fingerprint(
            ws,
            known,
            self.fingerprint,
            plan,
        ) {
            Ok(w) => w,
            Err(e) => {
                return Err(e);
            },
        };
        let ghost fingerprint_part = units::write_views(more@);
        writes.append(&mut more);
        assert(units::write_views(writes@) =~= before_fingerprint + fingerprint_part);
        proof {
            let roots = ws.roots(plan.info.target_arch@);
            assert(units::write_views(writes@) =~= outputs + seq![
                units::UnitWriteView::File {
                    path: path::join(roots.profile, plan@.encoded_dep_info_file()->Ok_0),
                    contents: self.encoded_dep_info_file@,
                    executable: None,
                },
                units::UnitWriteView::Text {
                    path: path::join(roots.profile, plan@.dep_info_file()->Ok_0),
                    text: dep_info::file_text(roots, self.dep_info_file@),
                },
            ] + fingerprint_writes(
                roots.profile,
                plan@.fingerprint_hash_file()->Ok_0,
                plan@.fingerprint_json_file()->Ok_0,
                fingerprint::rewritten(
                    self.fingerprint@,
                    Some(fingerprint::path_hash(plan.src_path@)),
                    fingerprint::known_views(old(known)@),
                ),
            ));
        }
        Ok(writes)
    }
}

/// Everything of a unit that compiles a library crate is written where Cargo reads it:
/// what the compiler wrote at its places, then the encoded dep-info file, the dep-info
/// file, the hash of the fingerprint, and the fingerprint.
pub proof fn law_everything_is_written_where_it_is_read(
    files: LibraryFiles,
    roots: qualified::Roots,
    plan: LibraryCrateUnitPlanView,
    fingerprint: fingerprint::FingerprintView,
)
    requires
        plan.info.package_name.len() == 0 || plan.info.package_name[0] != '/',
    ensures
        ({
            let unit = plan.info.package_name + "-"@ + plan.info.unit_hash;
            let name = "lib-"@ + plan.info.crate_name;
            let writes = files.writes(roots, plan, fingerprint);
            let n = files.output_files@.len() as int;
            &&& writes.len() == n + 4
            &&& forall|i: int|
                0 <= i < n ==> #[trigger] writes[i] == (units::UnitWriteView::File {
                    path: qualified::placed(roots, files.output_files@[i].path@),
                    contents: files.output_files@[i].contents@,
                    executable: Some(files.output_files@[i].executable),
                })
            &&& writes[n] == (units::UnitWriteView::File {
                path: path::join(
                    roots.profile,
                    path::join(".fingerprint/"@ + unit, "dep-"@ + name),
                ),
                contents: files.encoded_dep_info_file@,
                executable: None,
            })
            &&& writes[n + 1] == (units::UnitWriteView::Text {
                path: path::join(roots.profile, "deps/"@ + unit + ".d"@),
                text: dep_info::file_text(roots, files.dep_info_file@),
            })
            &&& writes[n + 2] == (units::UnitWriteView::Text {
                path: path::join(roots.profile, path::join(".fingerprint/"@ + unit, name)),
                text: fingerprint::hash_text(fingerprint),
            })
            &&& writes[n + 3] == (units::UnitWriteView::Json {
                path: path::join(
                    roots.profile,
                    path::join(".fingerprint/"@ + unit, name + ".json"@),
                ),
                fingerprint,
            })
        }),
{
    law_files_have_known_names(plan);
}

} // verus!
