//! Restoring units from the cache.

use std::collections::HashMap;
use vstd::hash_map::StringHashMap;
use vstd::hash_set::StringHashSet;
use vstd::prelude::*;
use vstd::string::*;

use crate::cargo::cache;
use crate::cargo::cache::transfer;
use crate::cargo::cache::transfer::RestoreProgress;
use crate::cargo::cache::{SavedUnit, StoredFile};
use crate::cargo::fingerprint;
use crate::cargo::fingerprint::{Fingerprint, RewriteError};
use crate::cargo::path as qualified;
use crate::cargo::units;
use crate::cargo::units::build_script_compilation;
use crate::cargo::units::build_script_execution;
use crate::cargo::units::{TouchPlan, UnitFileError};
use crate::cargo::workspace;
use crate::cargo::workspace::{UnitHash, UnitPlan, UnitPlanInfo, Workspace};
use crate::dash;
use crate::hash;
use crate::hash::Key;
use crate::path;
use crate::path::{AbsDirPath, AbsFilePath};
use crate::text;

verus! {

broadcast use vstd::std_specs::hash::group_hash_axioms;

/// A set of units, by their hashes.
pub struct UnitSet {
    hashes: StringHashSet,
}

impl View for UnitSet {
    type V = Set<Seq<char>>;

    closed spec fn view(&self) -> Set<Seq<char>> {
        self.hashes@
    }
}

impl UnitSet {
    /// No units.
    pub fn new() -> (r: UnitSet)
        ensures
            r@ == Set::<Seq<char>>::empty(),
    {
        UnitSet { hashes: StringHashSet::new() }
    }

    /// Adds a unit.
    pub fn insert(&mut self, hash: &UnitHash)
        ensures
            final(self)@ == old(self)@.insert(hash@),
    {
        self.hashes.insert(hash.text.clone());
    }

    /// Whether a unit is in the set.
    pub fn contains(&self, hash: &UnitHash) -> (r: bool)
        ensures
            r == self@.contains(hash@),
    {
        self.hashes.contains(hash.text.as_str())
    }

    /// The number of units.
    pub fn len(&self) -> (r: usize)
        ensures
            r == self@.len(),
    {
        self.hashes.len()
    }
}

/// The units that a cache returned, by their hashes.
pub struct SavedUnits {
    units: StringHashMap<SavedUnit>,
}

impl View for SavedUnits {
    type V = Map<Seq<char>, cache::SavedUnitView>;

    closed spec fn view(&self) -> Map<Seq<char>, cache::SavedUnitView> {
        self.units@.map_values(|u: SavedUnit| u@)
    }
}

impl SavedUnits {
    /// No units.
    pub fn new() -> (r: SavedUnits)
        ensures
            r@ == Map::<Seq<char>, cache::SavedUnitView>::empty(),
    {
        let r = SavedUnits { units: StringHashMap::new() };
        assert(r@ =~= Map::empty());
        r
    }

    /// Enters a unit.
    pub fn insert(&mut self, hash: &UnitHash, unit: SavedUnit)
        ensures
            final(self)@ == old(self)@.insert(hash@, unit@),
    {
        self.units.insert(hash.text.clone(), unit);
        assert(self@ =~= old(self)@.insert(hash@, unit@));
    }

    /// Whether a unit was returned.
    pub fn contains(&self, hash: &UnitHash) -> (r: bool)
        ensures
            r == self@.contains_key(hash@),
    {
        self.units.contains_key(hash.text.as_str())
    }

    /// What was returned of a unit.
    pub fn get(&self, hash: &UnitHash) -> (r: Option<&SavedUnit>)
        ensures
            match r {
                Some(u) => self@.contains_key(hash@) && u@ == self@[hash@],
                None => !self@.contains_key(hash@),
            },
    {
        self.units.get(hash.text.as_str())
    }

    /// Takes a unit out.
    pub fn remove(&mut self, hash: &UnitHash)
        ensures
            final(self)@ == old(self)@.remove(hash@),
    {
        self.units.remove(hash.text.as_str());
        assert(self@ =~= old(self)@.remove(hash@));
    }
}

/// Whether some dependency of a unit is neither saved nor on disk, or was filtered
/// itself.
pub open spec fn lacks_dep(
    deps: Seq<Seq<char>>,
    base: Set<Seq<char>>,
    filtered: Set<Seq<char>>,
) -> bool {
    exists|i: int|
        0 <= i < deps.len() && (!base.contains(#[trigger] deps[i]) || filtered.contains(deps[i]))
}

/// The units that are filtered, of those in `base`: each for a dependency that is
/// not in `base` or was filtered before.
pub open spec fn filtered_of(
    units: Seq<workspace::UnitPlanView>,
    base: Set<Seq<char>>,
) -> Set<Seq<char>>
    decreases units.len(),
{
    if units.len() == 0 {
        Set::empty()
    } else {
        let before = filtered_of(units.drop_last(), base);
        let info = units.last().info();
        if base.contains(info.unit_hash) && !before.contains(info.unit_hash) && lacks_dep(
            info.dep_hashes,
            base,
            before,
        ) {
            before.insert(info.unit_hash)
        } else {
            before
        }
    }
}

/// The units that are saved or on disk.
pub open spec fn base_of(
    saved: Map<Seq<char>, cache::SavedUnitView>,
    on_disk: Set<Seq<char>>,
) -> Set<Seq<char>> {
    saved.dom().union(on_disk)
}

/// The name of a unit's kind.
pub open spec fn type_name_of(unit: workspace::UnitPlanView) -> Seq<char> {
    match unit {
        workspace::UnitPlanView::LibraryCrate(_) => "LibraryCrate"@,
        workspace::UnitPlanView::BuildScriptCompilation(_) => "BuildScriptCompilation"@,
        workspace::UnitPlanView::BuildScriptExecution(_) => "BuildScriptExecution"@,
    }
}

/// The name of a unit's kind.
pub fn unit_type_name(unit: &UnitPlan) -> (r: &'static str)
    ensures
        r@ == type_name_of(unit@),
{
    match unit {
        UnitPlan::LibraryCrate(_) => "LibraryCrate",
        UnitPlan::BuildScriptCompilation(_) => "BuildScriptCompilation",
        UnitPlan::BuildScriptExecution(_) => "BuildScriptExecution",
    }
}

/// Filters units with incomplete dependencies: of those that are saved or on disk,
/// the ones with a dependency that is neither, or was filtered itself. Returns
/// them, and their number.
///
/// A unit whose dependency is missing cannot have its fingerprint rewritten, and
/// Cargo would rebuild it in any case. Dependencies must come before their
/// dependents, so that filtering a unit filters its dependents too.
pub fn filter_units_with_incomplete_deps(
    units: &Vec<UnitPlan>,
    saved_units: &SavedUnits,
    units_to_skip: &UnitSet,
) -> (r: (UnitSet, usize))
    ensures
        r.0@ == filtered_of(
            workspace::plan_views(units@),
            base_of(saved_units@, units_to_skip@),
        ),
        r.1 == r.0@.len(),
        r.0@.finite(),
{
    let ghost all = workspace::plan_views(units@);
    let ghost base = base_of(saved_units@, units_to_skip@);
    let mut filtered = UnitSet::new();
    let mut count: usize = 0;
    let mut i: usize = 0;
    while i < units.len()
        invariant
            i <= units.len(),
            all == workspace::plan_views(units@),
            base == base_of(saved_units@, units_to_skip@),
            filtered@ == filtered_of(all.take(i as int), base),
            filtered@.finite(),
            count == filtered@.len(),
            count <= i,
        decreases units.len() - i,
    {
        let info = units[i].info();
        proof {
            assert(all.take(i + 1).drop_last() =~= all.take(i as int));
            assert(all.take(i + 1).last() == units@[i as int]@);
        }
        if (saved_units.contains(&info.unit_hash) || units_to_skip.contains(&info.unit_hash))
            && !filtered.contains(&info.unit_hash) {
            let ghost deps = workspace::hash_views(info.dep_hashes@);
            let mut lacking: bool = false;
            let mut j: usize = 0;
            while j < info.dep_hashes.len() && !lacking
                invariant
                    j <= info.dep_hashes.len(),
                    deps == workspace::hash_views(info.dep_hashes@),
                    base == base_of(saved_units@, units_to_skip@),
                    lacking ==> lacks_dep(deps, base, filtered@),
                    !lacking ==> forall|k: int|
                        0 <= k < j ==> base.contains(#[trigger] deps[k]) && !filtered@.contains(
                            deps[k],
                        ),
                decreases info.dep_hashes.len() - j + (if lacking {
                    0int
                } else {
                    1int
                }),
            {
                let dep = &info.dep_hashes[j];
                assert(deps[j as int] == dep@);
                let available: bool = (saved_units.contains(dep) || units_to_skip.contains(dep))
                    && !filtered.contains(dep);
                if !available {
                    lacking = true;
                    assert(!base.contains(deps[j as int]) || filtered@.contains(deps[j as int]));
                }
                j += 1;
            }
            if lacking {
                filtered.insert(&info.unit_hash);
                count += 1;
            }
        }
        i += 1;
    }
    assert(all.take(units.len() as int) =~= all);
    (filtered, count)
}

/// Whether units have different hashes, and every dependency that is a unit comes
/// before its dependents.
pub open spec fn in_dependency_order(units: Seq<workspace::UnitPlanView>) -> bool {
    &&& forall|i: int, j: int|
        #![trigger units[i], units[j]]
        0 <= i < j < units.len() ==> units[i].info().unit_hash != units[j].info().unit_hash
    &&& forall|i: int, j: int, k: int|
        #![trigger units[i], units[j].info().dep_hashes[k]]
        0 <= i < units.len() && 0 <= j < units.len() && 0 <= k < units[j].info().dep_hashes.len()
            && units[j].info().dep_hashes[k] == units[i].info().unit_hash ==> i < j
}

proof fn lemma_filtered_grows(
    units: Seq<workspace::UnitPlanView>,
    base: Set<Seq<char>>,
    i: int,
)
    requires
        0 <= i <= units.len(),
    ensures
        filtered_of(units.take(i), base).subset_of(filtered_of(units, base)),
        forall|h: Seq<char>| #[trigger]
            filtered_of(units, base).contains(h) ==> filtered_of(units.take(i), base).contains(h)
                || exists|j: int|
                i <= j < units.len() && (#[trigger] units[j]).info().unit_hash == h,
    decreases units.len(),
{
    if i == units.len() {
        assert(units.take(i) =~= units);
    } else {
        let front = units.drop_last();
        lemma_filtered_grows(front, base, i);
        assert(front.take(i) =~= units.take(i));
        assert forall|h: Seq<char>| #[trigger] filtered_of(units, base).contains(
            h,
        ) implies filtered_of(units.take(i), base).contains(h) || exists|j: int|
            i <= j < units.len() && (#[trigger] units[j]).info().unit_hash == h by {
            if filtered_of(front, base).contains(h) {
                if !filtered_of(units.take(i), base).contains(h) {
                    let j = choose|j: int|
                        i <= j < front.len() && (#[trigger] front[j]).info().unit_hash == h;
                    assert(units[j] == front[j]);
                }
            } else {
                assert(units[units.len() - 1].info().unit_hash == h);
            }
        }
    }
}

/// After filtering, a unit that is saved or on disk has all its dependencies: none
/// of them is missing, and none was filtered.
pub proof fn law_kept_units_have_their_deps(
    units: Seq<workspace::UnitPlanView>,
    base: Set<Seq<char>>,
    i: int,
    k: int,
)
    requires
        in_dependency_order(units),
        0 <= i < units.len(),
        base.contains(units[i].info().unit_hash),
        !filtered_of(units, base).contains(units[i].info().unit_hash),
        0 <= k < units[i].info().dep_hashes.len(),
    ensures
        base.contains(units[i].info().dep_hashes[k]),
        !filtered_of(units, base).contains(units[i].info().dep_hashes[k]),
{
    let h = units[i].info().unit_hash;
    let d = units[i].info().dep_hashes[k];
    let before = filtered_of(units.take(i), base);
    let after = filtered_of(units.take(i + 1), base);
    lemma_filtered_grows(units, base, i);
    lemma_filtered_grows(units, base, i + 1);
    assert(units.take(i + 1).drop_last() =~= units.take(i));
    assert(units.take(i + 1).last() == units[i]);
    assert(!after.contains(h));
    assert(!before.contains(h));
    assert(!lacks_dep(units[i].info().dep_hashes, base, before));
    assert(base.contains(d) && !before.contains(d));
    if filtered_of(units, base).contains(d) {
        let j = choose|j: int|
            i <= j < units.len() && (#[trigger] units[j]).info().unit_hash == d;
        assert(units[i].info().dep_hashes[k] == units[j].info().unit_hash);
        assert(j < i);
    }
}

/// Only units that could be restored, and that lack a dependency, are filtered.
pub proof fn law_filtered_units_lack_a_dep(
    units: Seq<workspace::UnitPlanView>,
    base: Set<Seq<char>>,
    h: Seq<char>,
)
    requires
        filtered_of(units, base).contains(h),
    ensures
        base.contains(h),
        exists|i: int|
            0 <= i < units.len() && (#[trigger] units[i]).info().unit_hash == h && lacks_dep(
                units[i].info().dep_hashes,
                base,
                filtered_of(units, base),
            ),
    decreases units.len(),
{
    let front = units.drop_last();
    let before = filtered_of(front, base);
    let all = filtered_of(units, base);
    if before.contains(h) {
        law_filtered_units_lack_a_dep(front, base, h);
        let i = choose|i: int|
            0 <= i < front.len() && (#[trigger] front[i]).info().unit_hash == h && lacks_dep(
                front[i].info().dep_hashes,
                base,
                before,
            );
        assert(units[i] == front[i]);
        lemma_lacks_dep_mono(front[i].info().dep_hashes, base, before, all);
    } else {
        let i = units.len() - 1;
        assert(units[i].info().unit_hash == h);
        lemma_lacks_dep_mono(units[i].info().dep_hashes, base, before, all);
    }
}

proof fn lemma_lacks_dep_mono(
    deps: Seq<Seq<char>>,
    base: Set<Seq<char>>,
    a: Set<Seq<char>>,
    b: Set<Seq<char>>,
)
    requires
        lacks_dep(deps, base, a),
        a.subset_of(b),
    ensures
        lacks_dep(deps, base, b),
{
    let i = choose|i: int|
        0 <= i < deps.len() && (!base.contains(#[trigger] deps[i]) || a.contains(deps[i]));
    assert(!base.contains(deps[i]) || b.contains(deps[i]));
}

/// Where every dependency is saved or on disk, nothing is filtered.
pub proof fn law_complete_units_are_kept(
    units: Seq<workspace::UnitPlanView>,
    base: Set<Seq<char>>,
)
    requires
        forall|i: int, k: int|
            #![trigger units[i].info().dep_hashes[k]]
            0 <= i < units.len() && 0 <= k < units[i].info().dep_hashes.len() ==> base.contains(
                units[i].info().dep_hashes[k],
            ),
    ensures
        filtered_of(units, base) == Set::<Seq<char>>::empty(),
    decreases units.len(),
{
    if units.len() > 0 {
        let front = units.drop_last();
        assert forall|i: int, k: int|
            #![trigger front[i].info().dep_hashes[k]]
            0 <= i < front.len() && 0 <= k < front[i].info().dep_hashes.len() implies base.contains(
            front[i].info().dep_hashes[k],
        ) by {
            assert(front[i] == units[i]);
            assert(base.contains(units[i].info().dep_hashes[k]));
        }
        law_complete_units_are_kept(front, base);
        let deps = units.last().info().dep_hashes;
        if lacks_dep(deps, base, Set::empty()) {
            let k = choose|k: int| 0 <= k < deps.len() && !base.contains(#[trigger] deps[k]);
            assert(units[units.len() - 1].info().dep_hashes[k] == deps[k]);
        }
    }
}

/// What a restored file is, and so how its contents become the file.
#[derive(Debug, Clone, Copy, PartialEq, Eq, Structural)]
pub enum RestoredFileKind {
    /// An output of the compiler or of a build script, written as it is.
    Output { executable: bool },
    /// A compiled build script, which is executable and gets a hard link.
    Program,
    /// A dep-info file, written for this machine.
    DepInfo,
    /// An encoded dep-info file, written as it is.
    EncodedDepInfo,
    /// What a build script printed, written for this machine.
    Stdout,
    /// What a build script printed as errors, written as it is.
    Stderr,
}

/// A file that is restored from the contents stored under a key.
#[derive(Debug)]
pub struct FileRestoreKey {
    pub unit_hash: UnitHash,
    pub key: Key,
    pub path: AbsFilePath,
    pub kind: RestoredFileKind,
    /// The hard link that is made to the file.
    pub link: Option<AbsFilePath>,
    /// The modification time, in seconds since the epoch.
    pub mtime: u64,
}

/// A [`FileRestoreKey`] in terms of characters and bytes.
pub struct FileRestoreKeyView {
    pub unit_hash: Seq<char>,
    pub key: Seq<u8>,
    pub path: Seq<char>,
    pub kind: RestoredFileKind,
    pub link: Option<Seq<char>>,
    pub mtime: u64,
}

impl View for FileRestoreKey {
    type V = FileRestoreKeyView;

    open spec fn view(&self) -> FileRestoreKeyView {
        FileRestoreKeyView {
            unit_hash: self.unit_hash@,
            key: self.key@,
            path: self.path@,
            kind: self.kind,
            link: match self.link {
                Some(l) => Some(l@),
                None => None,
            },
            mtime: self.mtime,
        }
    }
}

/// The views of a sequence of files to restore.
pub open spec fn restore_views(v: Seq<FileRestoreKey>) -> Seq<FileRestoreKeyView> {
    Seq::new(v.len(), |i: int| v[i]@)
}

/// Why a unit could not be restored.
#[derive(Debug, Clone, Copy, PartialEq, Eq, Structural)]
pub enum RestoreError {
    /// The fingerprint could not be rewritten.
    Rewrite(RewriteError),
    /// A file of the unit cannot be named.
    UnitFile(UnitFileError),
    /// A file that is restored has no absolute path.
    RelativeFile,
    /// What was saved is a unit of another kind.
    UnitTypeMismatch,
    /// The fingerprint of a unit on disk was not given.
    NoLocalFingerprint,
}

/// What is restored of a unit besides its fingerprint.
#[derive(Debug)]
pub struct UnitFiles {
    /// A directory that is made, even if no file is put there.
    pub create_dir: Option<AbsDirPath>,
    /// The files whose contents are stored.
    pub files: Vec<FileRestoreKey>,
    /// The file that records the output directory of a build script, and its text.
    pub root_output: Option<(AbsFilePath, String)>,
}

/// [`UnitFiles`] in terms of characters and bytes.
#[verifier::ext_equal]
pub struct UnitFilesView {
    pub create_dir: Option<Seq<char>>,
    pub files: Seq<FileRestoreKeyView>,
    pub root_output: Option<(Seq<char>, Seq<char>)>,
}

impl View for UnitFiles {
    type V = UnitFilesView;

    open spec fn view(&self) -> UnitFilesView {
        UnitFilesView {
            create_dir: match self.create_dir {
                Some(d) => Some(d@),
                None => None,
            },
            files: restore_views(self.files@),
            root_output: match self.root_output {
                Some(p) => Some((p.0@, p.1@)),
                None => None,
            },
        }
    }
}

/// Where a stored file belongs on this machine.
pub open spec fn place_of(roots: qualified::Roots, file: cache::StoredFileView) -> Seq<char> {
    qualified::placed(roots, file.path)
}

/// Whether every stored file belongs to an absolute path.
pub open spec fn all_absolute(
    roots: qualified::Roots,
    files: Seq<cache::StoredFileView>,
) -> bool {
    forall|i: int| 0 <= i < files.len() ==> path::is_abs(place_of(roots, #[trigger] files[i]))
}

/// The outputs that are restored.
pub open spec fn outputs_of(
    roots: qualified::Roots,
    files: Seq<cache::StoredFileView>,
    unit_hash: Seq<char>,
    mtime: u64,
) -> Seq<FileRestoreKeyView> {
    Seq::new(
        files.len(),
        |i: int|
            FileRestoreKeyView {
                unit_hash,
                key: files[i].object_key,
                path: place_of(roots, files[i]),
                kind: RestoredFileKind::Output { executable: files[i].executable },
                link: None,
                mtime,
            },
    )
}

/// A file of a unit that is known by name.
pub open spec fn named_file(
    profile: Seq<char>,
    unit_hash: Seq<char>,
    key: Seq<u8>,
    file: Seq<char>,
    kind: RestoredFileKind,
    mtime: u64,
) -> FileRestoreKeyView {
    FileRestoreKeyView {
        unit_hash,
        key,
        path: path::join(profile, file),
        kind,
        link: None,
        mtime,
    }
}

/// What is restored of a unit that was saved.
pub open spec fn unit_files(
    ws: Workspace,
    unit: workspace::UnitPlanView,
    saved: cache::SavedUnitView,
    mtime: u64,
) -> Result<UnitFilesView, RestoreError> {
    let info = unit.info();
    let roots = ws.roots(info.target_arch);
    let h = info.unit_hash;
    match (saved, unit) {
        (
            cache::SavedUnitView::LibraryCrate {
                output_files,
                dep_info_file,
                encoded_dep_info_file,
                ..
            },
            workspace::UnitPlanView::LibraryCrate(plan),
        ) => {
            if !all_absolute(roots, output_files) {
                Err(RestoreError::RelativeFile)
            } else {
                match (plan.dep_info_file(), plan.encoded_dep_info_file()) {
                    (Err(e), _) => Err(RestoreError::UnitFile(e)),
                    (_, Err(e)) => Err(RestoreError::UnitFile(e)),
                    (Ok(d), Ok(c)) => Ok(
                        UnitFilesView {
                            create_dir: None,
                            files: outputs_of(roots, output_files, h, mtime) + seq![
                                named_file(
                                    roots.profile,
                                    h,
                                    dep_info_file,
                                    d,
                                    RestoredFileKind::DepInfo,
                                    mtime,
                                ),
                                named_file(
                                    roots.profile,
                                    h,
                                    encoded_dep_info_file,
                                    c,
                                    RestoredFileKind::EncodedDepInfo,
                                    mtime,
                                ),
                            ],
                            root_output: None,
                        },
                    ),
                }
            }
        },
        (
            cache::SavedUnitView::BuildScriptCompilation {
                compiled_program,
                dep_info_file,
                encoded_dep_info_file,
                ..
            },
            workspace::UnitPlanView::BuildScriptCompilation(plan),
        ) => {
            match plan.program_file() {
                Err(e) => Err(RestoreError::UnitFile(e)),
                Ok(program) => Ok(
                    UnitFilesView {
                        create_dir: None,
                        files: seq![
                            FileRestoreKeyView {
                                unit_hash: h,
                                key: compiled_program,
                                path: path::join(roots.profile, program),
                                kind: RestoredFileKind::Program,
                                link: Some(
                                    path::join(roots.profile, plan.linked_program_file()->Ok_0),
                                ),
                                mtime,
                            },
                            named_file(
                                roots.profile,
                                h,
                                dep_info_file,
                                plan.dep_info_file()->Ok_0,
                                RestoredFileKind::DepInfo,
                                mtime,
                            ),
                            named_file(
                                roots.profile,
                                h,
                                encoded_dep_info_file,
                                plan.encoded_dep_info_file()->Ok_0,
                                RestoredFileKind::EncodedDepInfo,
                                mtime,
                            ),
                        ],
                        root_output: None,
                    },
                ),
            }
        },
        (
            cache::SavedUnitView::BuildScriptExecution { out_dir_files, stdout, stderr, .. },
            workspace::UnitPlanView::BuildScriptExecution(plan),
        ) => {
            match plan.out_dir() {
                Err(e) => Err(RestoreError::UnitFile(e)),
                Ok(out_dir) => if !all_absolute(roots, out_dir_files) {
                    Err(RestoreError::RelativeFile)
                } else {
                    Ok(
                        UnitFilesView {
                            create_dir: Some(path::join(roots.profile, out_dir)),
                            files: outputs_of(roots, out_dir_files, h, mtime) + seq![
                                named_file(
                                    roots.profile,
                                    h,
                                    stdout,
                                    plan.stdout_file()->Ok_0,
                                    RestoredFileKind::Stdout,
                                    mtime,
                                ),
                                named_file(
                                    roots.profile,
                                    h,
                                    stderr,
                                    plan.stderr_file()->Ok_0,
                                    RestoredFileKind::Stderr,
                                    mtime,
                                ),
                            ],
                            root_output: Some(
                                (
                                    path::join(roots.profile, plan.root_output_file()->Ok_0),
                                    path::join(roots.profile, out_dir),
                                ),
                            ),
                        },
                    )
                },
            }
        },
        _ => Err(RestoreError::UnitTypeMismatch),
    }
}

/// The outputs to restore, where each has an absolute path.
fn output_restores(
    ws: &Workspace,
    info: &UnitPlanInfo,
    files: &Vec<StoredFile>,
    mtime: u64,
) -> (r: Result<Vec<FileRestoreKey>, RestoreError>)
    ensures
        ({
            let roots = ws.roots(info.target_arch@);
            let stored = cache::stored_views(files@);
            match r {
                Ok(v) => all_absolute(roots, stored) && restore_views(v@) == outputs_of(
                    roots,
                    stored,
                    info.unit_hash@,
                    mtime,
                ),
                Err(e) => !all_absolute(roots, stored) && e == RestoreError::RelativeFile,
            }
        }),
{
    let ghost roots = ws.roots(info.target_arch@);
    let ghost stored = cache::stored_views(files@);
    let ghost want = outputs_of(roots, stored, info.unit_hash@, mtime);
    let mut r: Vec<FileRestoreKey> = Vec::new();
    let mut i: usize = 0;
    while i < files.len()
        invariant
            i <= files.len(),
            i == r.len(),
            roots == ws.roots(info.target_arch@),
            stored == cache::stored_views(files@),
            want == outputs_of(roots, stored, info.unit_hash@, mtime),
            forall|j: int|
                0 <= j < i ==> path::is_abs(place_of(roots, #[trigger] stored[j])),
            forall|j: int| 0 <= j < i ==> #[trigger] r@[j]@ == want[j],
        decreases files.len() - i,
    {
        let file = &files[i];
        assert(stored[i as int] == file@);
        let place: String = file.path.reconstruct(ws, info);
        match AbsFilePath::new(place.as_str()) {
            Ok(p) => {
                r.push(
                    FileRestoreKey {
                        unit_hash: info.unit_hash.clone(),
                        key: file.object_key.clone(),
                        path: p,
                        kind: RestoredFileKind::Output { executable: file.executable },
                        link: None,
                        mtime,
                    },
                );
            },
            Err(_) => {
                assert(!path::is_abs(place_of(roots, stored[i as int])));
                return Err(RestoreError::RelativeFile);
            },
        }
        i += 1;
    }
    assert(restore_views(r@) =~= want);
    Ok(r)
}

fn named_restore(
    info: &UnitPlanInfo,
    key: &Key,
    p: AbsFilePath,
    kind: RestoredFileKind,
    mtime: u64,
) -> (r: FileRestoreKey)
    ensures
        r@ == (FileRestoreKeyView {
            unit_hash: info.unit_hash@,
            key: key@,
            path: p@,
            kind,
            link: None,
            mtime,
        }),
{
    FileRestoreKey {
        unit_hash: info.unit_hash.clone(),
        key: key.clone(),
        path: p,
        kind,
        link: None,
        mtime,
    }
}

/// What is restored of a unit that was saved, besides its fingerprint.
pub fn files_to_restore(ws: &Workspace, unit: &UnitPlan, saved: &SavedUnit, mtime: u64) -> (r:
    Result<UnitFiles, RestoreError>)
    ensures
        match r {
            Ok(f) => unit_files(*ws, unit@, saved@, mtime) == Ok::<UnitFilesView, RestoreError>(
                f@,
            ),
            Err(e) => unit_files(*ws, unit@, saved@, mtime) == Err::<UnitFilesView, RestoreError>(
                e,
            ),
        },
{
    let profile_dir = ws.unit_profile_dir(unit.info());
    let ghost want = unit_files(*ws, unit@, saved@, mtime);
    match (saved, unit) {
        (
            SavedUnit::LibraryCrate { output_files, dep_info_file, encoded_dep_info_file, .. },
            UnitPlan::LibraryCrate(plan),
        ) => {
            let mut files: Vec<FileRestoreKey> = match output_restores(
                ws,
                &plan.info,
                output_files,
                mtime,
            ) {
                Ok(v) => v,
                Err(e) => {
                    return Err(e);
                },
            };
            let ghost outputs = restore_views(files@);
            let dep_info = match plan.dep_info_file() {
                Ok(f) => f,
                Err(e) => {
                    return Err(RestoreError::UnitFile(e));
                },
            };
            let encoded = match plan.encoded_dep_info_file() {
                Ok(f) => f,
                Err(e) => {
                    return Err(RestoreError::UnitFile(e));
                },
            };
            files.push(
                named_restore(
                    &plan.info,
                    dep_info_file,
                    profile_dir.join_file(&dep_info),
                    RestoredFileKind::DepInfo,
                    mtime,
                ),
            );
            files.push(
                named_restore(
                    &plan.info,
                    encoded_dep_info_file,
                    profile_dir.join_file(&encoded),
                    RestoredFileKind::EncodedDepInfo,
                    mtime,
                ),
            );
            let r = UnitFiles { create_dir: None, files, root_output: None };
            assert(r@.files =~= (want->Ok_0).files);
            Ok(r)
        },
        (
            SavedUnit::BuildScriptCompilation {
                compiled_program,
                dep_info_file,
                encoded_dep_info_file,
                ..
            },
            UnitPlan::BuildScriptCompilation(plan),
        ) => {
            proof {
                build_script_compilation::law_all_files_or_none(plan@);
            }
            let program = match plan.program_file() {
                Ok(f) => f,
                Err(e) => {
                    return Err(RestoreError::UnitFile(e));
                },
            };
            let link = match plan.linked_program_file() {
                Ok(f) => f,
                Err(e) => {
                    return Err(RestoreError::UnitFile(e));
                },
            };
            let dep_info = match plan.dep_info_file() {
                Ok(f) => f,
                Err(e) => {
                    return Err(RestoreError::UnitFile(e));
                },
            };
            let encoded = match plan.encoded_dep_info_file() {
                Ok(f) => f,
                Err(e) => {
                    return Err(RestoreError::UnitFile(e));
                },
            };
            let mut files: Vec<FileRestoreKey> = Vec::new();
            files.push(
                FileRestoreKey {
                    unit_hash: plan.info.unit_hash.clone(),
                    key: compiled_program.clone(),
                    path: profile_dir.join_file(&program),
                    kind: RestoredFileKind::Program,
                    link: Some(profile_dir.join_file(&link)),
                    mtime,
                },
            );
            files.push(
                named_restore(
                    &plan.info,
                    dep_info_file,
                    profile_dir.join_file(&dep_info),
                    RestoredFileKind::DepInfo,
                    mtime,
                ),
            );
            files.push(
                named_restore(
                    &plan.info,
                    encoded_dep_info_file,
                    profile_dir.join_file(&encoded),
                    RestoredFileKind::EncodedDepInfo,
                    mtime,
                ),
            );
            let r = UnitFiles { create_dir: None, files, root_output: None };
            assert(r@.files =~= (want->Ok_0).files);
            Ok(r)
        },
        (
            SavedUnit::BuildScriptExecution { out_dir_files, stdout, stderr, .. },
            UnitPlan::BuildScriptExecution(plan),
        ) => {
            proof {
                build_script_execution::law_all_files_or_none(plan@);
            }
            let out_dir = match plan.out_dir() {
                Ok(d) => profile_dir.join_dir(&d),
                Err(e) => {
                    return Err(RestoreError::UnitFile(e));
                },
            };
            let mut files: Vec<FileRestoreKey> = match output_restores(
                ws,
                &plan.info,
                out_dir_files,
                mtime,
            ) {
                Ok(v) => v,
                Err(e) => {
                    return Err(e);
                },
            };
            let stdout_file = match plan.stdout_file() {
                Ok(f) => f,
                Err(e) => {
                    return Err(RestoreError::UnitFile(e));
                },
            };
            let stderr_file = match plan.stderr_file() {
                Ok(f) => f,
                Err(e) => {
                    return Err(RestoreError::UnitFile(e));
                },
            };
            let root_output = match plan.root_output_file() {
                Ok(f) => profile_dir.join_file(&f),
                Err(e) => {
                    return Err(RestoreError::UnitFile(e));
                },
            };
            files.push(
                named_restore(
                    &plan.info,
                    stdout,
                    profile_dir.join_file(&stdout_file),
                    RestoredFileKind::Stdout,
                    mtime,
                ),
            );
            files.push(
                named_restore(
                    &plan.info,
                    stderr,
                    profile_dir.join_file(&stderr_file),
                    RestoredFileKind::Stderr,
                    mtime,
                ),
            );
            let text = text::copy(out_dir.as_str());
            let r = UnitFiles {
                create_dir: Some(out_dir),
                files,
                root_output: Some((root_output, text)),
            };
            assert(r@.files =~= (want->Ok_0).files);
            Ok(r)
        },
        _ => Err(RestoreError::UnitTypeMismatch),
    }
}

/// What was restored: units by their hashes, and files by the text of their keys.
pub struct Restored {
    pub units: dashmap::DashSet<String>,
    pub files: dashmap::DashSet<String>,
}

impl Restored {
    /// The units that were restored.
    pub open spec fn unit_hashes(&self) -> Set<Seq<char>> {
        dash::set_contents(self.units)
    }

    /// The keys of the files that were restored, as text.
    pub open spec fn file_keys(&self) -> Set<Seq<char>> {
        dash::set_contents(self.files)
    }

    /// Nothing.
    pub fn new() -> (r: Restored)
        ensures
            r.unit_hashes() == Set::<Seq<char>>::empty(),
            r.file_keys() == Set::<Seq<char>>::empty(),
    {
        Restored { units: dash::set_new(), files: dash::set_new() }
    }

    /// Adds a unit.
    pub fn insert_unit(&mut self, hash: &UnitHash)
        ensures
            final(self).unit_hashes() == old(self).unit_hashes().insert(hash@),
            final(self).file_keys() == old(self).file_keys(),
    {
        dash::set_insert(&mut self.units, hash.text.clone());
    }

    /// Adds a file.
    pub fn insert_file(&mut self, key: &Key)
        ensures
            final(self).file_keys() == old(self).file_keys().insert(hash::hex_text(key@)),
            final(self).unit_hashes() == old(self).unit_hashes(),
    {
        dash::set_insert(&mut self.files, key.to_hex());
    }

    /// Whether a unit was restored.
    pub fn has_unit(&self, hash: &UnitHash) -> (r: bool)
        ensures
            r == self.unit_hashes().contains(hash@),
    {
        dash::set_contains(&self.units, hash.text.as_str())
    }

    /// Whether a file was restored.
    pub fn has_file(&self, key: &Key) -> (r: bool)
        ensures
            r == self.file_keys().contains(hash::hex_text(key@)),
    {
        dash::set_contains(&self.files, key.to_hex().as_str())
    }
}

/// A unit whose files did not all come.
#[derive(Debug)]
pub struct Unfinished {
    pub unit_hash: UnitHash,
}

/// The file whose presence tells that a unit is already on disk.
pub open spec fn presence_file(ws: Workspace, unit: workspace::UnitPlanView) -> Result<
    Seq<char>,
    UnitFileError,
> {
    match unit.fingerprint_json_file() {
        Ok(f) => Ok(path::join(ws.spec_arch_profile_dir(unit.info().target_arch), f)),
        Err(e) => Err(e),
    }
}

/// The files whose presence tells which units are already on disk.
pub fn presence_files(ws: &Workspace, units: &Vec<UnitPlan>) -> (r: Result<
    Vec<AbsFilePath>,
    UnitFileError,
>)
    ensures
        match r {
            Ok(files) => {
                &&& files@.len() == units@.len()
                &&& forall|i: int|
                    0 <= i < units@.len() ==> presence_file(*ws, #[trigger] units@[i]@) == Ok::<
                        Seq<char>,
                        UnitFileError,
                    >(files@[i]@)
            },
            Err(e) => exists|i: int|
                0 <= i < units@.len() && presence_file(*ws, #[trigger] units@[i]@) == Err::<
                    Seq<char>,
                    UnitFileError,
                >(e) && forall|j: int|
                    0 <= j < i ==> presence_file(*ws, #[trigger] units@[j]@) is Ok,
        },
{
    let mut files: Vec<AbsFilePath> = Vec::new();
    let mut i: usize = 0;
    while i < units.len()
        invariant
            i <= units.len(),
            i == files.len(),
            forall|j: int|
                0 <= j < i ==> presence_file(*ws, #[trigger] units@[j]@) == Ok::<
                    Seq<char>,
                    UnitFileError,
                >(files@[j]@),
        decreases units.len() - i,
    {
        match units[i].fingerprint_json_file() {
            Ok(f) => files.push(ws.unit_profile_dir(units[i].info()).join_file(&f)),
            Err(e) => {
                assert(presence_file(*ws, units@[i as int]@) == Err::<Seq<char>, UnitFileError>(e));
                return Err(e);
            },
        }
        i += 1;
    }
    Ok(files)
}

/// The units that are on disk.
pub open spec fn on_disk_of(
    units: Seq<workspace::UnitPlanView>,
    present: Seq<bool>,
) -> Set<Seq<char>> {
    Set::new(
        |h: Seq<char>|
            exists|i: int|
                0 <= i < units.len() && present[i] && (#[trigger] units[i]).info().unit_hash == h,
    )
}

/// What is done for the next unit.
pub enum RestoreStep {
    /// There is no next unit.
    Done,
    /// The unit has incomplete dependencies and is left out.
    Incomplete,
    /// The unit was not returned by the cache. If it is on disk it is touched, so that
    /// it stays newer than its dependencies. That it cannot be touched is no failure.
    Missing { touch: Option<Result<TouchPlan, UnitFileError>>, mtime: u64 },
    /// The unit is on disk. It is kept, and touched. That it cannot be touched is no
    /// failure.
    Kept { touch: Result<TouchPlan, UnitFileError>, mtime: u64 },
    /// The unit is restored: first its fingerprint is written, then its files are.
    Restore {
        mtime: u64,
        hash_file: AbsFilePath,
        hash_text: String,
        json_file: AbsFilePath,
        fingerprint: Fingerprint,
        files: Result<UnitFiles, RestoreError>,
    },
}

/// A [`RestoreStep`] in terms of characters and bytes.
pub enum RestoreStepView {
    Done,
    Incomplete,
    Missing {
        touch: Option<Result<(Seq<Seq<char>>, Option<Seq<char>>), UnitFileError>>,
        mtime: u64,
    },
    Kept {
        touch: Result<(Seq<Seq<char>>, Option<Seq<char>>), UnitFileError>,
        mtime: u64,
    },
    Restore {
        mtime: u64,
        hash_file: Seq<char>,
        hash_text: Seq<char>,
        json_file: Seq<char>,
        fingerprint: fingerprint::FingerprintView,
        files: Result<UnitFilesView, RestoreError>,
    },
}

/// The files of a touch plan, where there is one.
pub open spec fn touch_result(t: Result<TouchPlan, UnitFileError>) -> Result<
    (Seq<Seq<char>>, Option<Seq<char>>),
    UnitFileError,
> {
    match t {
        Ok(plan) => Ok(workspace::touch_view(plan)),
        Err(e) => Err(e),
    }
}

impl View for RestoreStep {
    type V = RestoreStepView;

    open spec fn view(&self) -> RestoreStepView {
        match self {
            RestoreStep::Done => RestoreStepView::Done,
            RestoreStep::Incomplete => RestoreStepView::Incomplete,
            RestoreStep::Missing { touch, mtime } => RestoreStepView::Missing {
                touch: match touch {
                    Some(t) => Some(touch_result(*t)),
                    None => None,
                },
                mtime: *mtime,
            },
            RestoreStep::Kept { touch, mtime } => RestoreStepView::Kept {
                touch: touch_result(*touch),
                mtime: *mtime,
            },
            RestoreStep::Restore {
                mtime,
                hash_file,
                hash_text,
                json_file,
                fingerprint,
                files,
            } => RestoreStepView::Restore {
                mtime: *mtime,
                hash_file: hash_file@,
                hash_text: hash_text@,
                json_file: json_file@,
                fingerprint: fingerprint@,
                files: match files {
                    Ok(f) => Ok(f@),
                    Err(e) => Err(*e),
                },
            },
        }
    }
}

/// A restore that is under way.
pub struct RestoreSession {
    units: Vec<UnitPlan>,
    on_disk: UnitSet,
    incomplete: UnitSet,
    saved: SavedUnits,
    known: HashMap<u64, Fingerprint>,
    next: usize,
    restored: Restored,
}

/// The state of a restore.
#[verifier::ext_equal]
pub struct RestoreSessionView {
    /// The units of the build, in dependency order.
    pub units: Seq<workspace::UnitPlanView>,
    /// The units that are on disk.
    pub on_disk: Set<Seq<char>>,
    /// The units that are left out for their dependencies.
    pub incomplete: Set<Seq<char>>,
    /// The units that the cache returned and that were not dealt with yet.
    pub saved: Map<Seq<char>, cache::SavedUnitView>,
    /// The replacements of fingerprints, by the hashes that they were saved with.
    pub known: Map<u64, fingerprint::FingerprintView>,
    /// How many units were dealt with.
    pub next: nat,
    /// The units that were restored, or were on disk from the start.
    pub restored: Set<Seq<char>>,
    /// The keys of the files that were restored, as text.
    pub restored_files: Set<Seq<char>>,
}

impl View for RestoreSession {
    type V = RestoreSessionView;

    closed spec fn view(&self) -> RestoreSessionView {
        RestoreSessionView {
            units: workspace::plan_views(self.units@),
            on_disk: self.on_disk@,
            incomplete: self.incomplete@,
            saved: self.saved@,
            known: fingerprint::known_views(self.known@),
            next: self.next as nat,
            restored: self.restored.unit_hashes(),
            restored_files: self.restored.file_keys(),
        }
    }
}

/// The state after the next unit, and what is done for it.
///
/// Every unit that is restored or touched gets a modification time of as many seconds
/// after the epoch as there are units before it, so that no unit looks older than its
/// dependencies, and every such unit looks older than what is built here.
pub open spec fn next_step(
    ws: Workspace,
    s: RestoreSessionView,
    local: Option<fingerprint::FingerprintView>,
) -> Result<(RestoreSessionView, RestoreStepView), RestoreError> {
    if s.next >= s.units.len() {
        Ok((s, RestoreStepView::Done))
    } else {
        let unit = s.units[s.next as int];
        let h = unit.info().unit_hash;
        let profile = ws.spec_arch_profile_dir(unit.info().target_arch);
        let mtime = s.next as u64;
        let s1 = RestoreSessionView { next: s.next + 1, ..s };
        if s.incomplete.contains(h) {
            Ok((s1, RestoreStepView::Incomplete))
        } else if !s.saved.contains_key(h) {
            Ok(
                (
                    s1,
                    RestoreStepView::Missing {
                        touch: if s.on_disk.contains(h) {
                            Some(unit.touched(profile))
                        } else {
                            None
                        },
                        mtime,
                    },
                ),
            )
        } else {
            let saved = s.saved[h];
            let cached = saved.fingerprint();
            let s2 = RestoreSessionView { saved: s.saved.remove(h), ..s1 };
            if s.on_disk.contains(h) {
                match local {
                    None => Err(RestoreError::NoLocalFingerprint),
                    Some(f) => Ok(
                        (
                            RestoreSessionView {
                                known: s.known.insert(fingerprint::hash_of(cached), f),
                                ..s2
                            },
                            RestoreStepView::Kept { touch: unit.touched(profile), mtime },
                        ),
                    ),
                }
            } else {
                let path_h = match unit.src_path() {
                    Some(p) => Some(fingerprint::path_hash(p)),
                    None => None,
                };
                if path_h is Some && cached.path == 0 {
                    Err(RestoreError::Rewrite(RewriteError::UnsetPath))
                } else if !fingerprint::deps_known(cached, s.known) {
                    Err(RestoreError::Rewrite(RewriteError::UnknownDependency))
                } else {
                    let g = fingerprint::rewritten(cached, path_h, s.known);
                    let files = unit_files(ws, unit, saved, mtime);
                    match (unit.fingerprint_hash_file(), unit.fingerprint_json_file()) {
                        (Err(e), _) => Err(RestoreError::UnitFile(e)),
                        (_, Err(e)) => Err(RestoreError::UnitFile(e)),
                        (Ok(hash_file), Ok(json_file)) => Ok(
                            (
                                RestoreSessionView {
                                    known: s.known.insert(fingerprint::hash_of(cached), g),
                                    restored: if files is Ok {
                                        s.restored.insert(h)
                                    } else {
                                        s.restored
                                    },
                                    ..s2
                                },
                                RestoreStepView::Restore {
                                    mtime,
                                    hash_file: path::join(profile, hash_file),
                                    hash_text: fingerprint::hash_text(g),
                                    json_file: path::join(profile, json_file),
                                    fingerprint: g,
                                    files,
                                },
                            ),
                        ),
                    }
                }
            }
        }
    }
}

/// Whether the next unit is on disk and was returned by the cache, so that its
/// fingerprint on disk is needed.
pub open spec fn wants_local(s: RestoreSessionView) -> bool {
    s.next < s.units.len() && ({
        let h = s.units[s.next as int].info().unit_hash;
        !s.incomplete.contains(h) && s.saved.contains_key(h) && s.on_disk.contains(h)
    })
}

impl RestoreSession {
    /// Begins to restore units, of which some are on disk, from what the cache
    /// returned.
    pub fn new(units: Vec<UnitPlan>, present: &Vec<bool>, saved: SavedUnits) -> (r: RestoreSession)
        requires
            present@.len() == units@.len(),
        ensures
            ({
                let plans = workspace::plan_views(units@);
                let on_disk = on_disk_of(plans, present@);
                &&& r@.units == plans
                &&& r@.on_disk == on_disk
                &&& r@.incomplete == filtered_of(plans, base_of(saved@, on_disk))
                &&& r@.saved == saved@
                &&& r@.known == Map::<u64, fingerprint::FingerprintView>::empty()
                &&& r@.next == 0
                &&& r@.restored == on_disk
                &&& r@.restored_files == Set::<Seq<char>>::empty()
            }),
    {
        let ghost plans = workspace::plan_views(units@);
        let mut on_disk = UnitSet::new();
        let mut restored = Restored::new();
        let mut i: usize = 0;
        assert(on_disk@ =~= on_disk_of(plans.take(0), present@));
        while i < units.len()
            invariant
                i <= units.len(),
                present@.len() == units@.len(),
                plans == workspace::plan_views(units@),
                on_disk@ == on_disk_of(plans.take(i as int), present@),
                restored.unit_hashes() == on_disk@,
                restored.file_keys() == Set::<Seq<char>>::empty(),
            decreases units.len() - i,
        {
            let ghost before = on_disk@;
            let ghost front = plans.take(i as int);
            let ghost more = plans.take(i + 1);
            if present[i] {
                let info = units[i].info();
                on_disk.insert(&info.unit_hash);
                restored.insert_unit(&info.unit_hash);
            }
            proof {
                let want = on_disk_of(more, present@);
                let h = plans[i as int].info().unit_hash;
                assert forall|x: Seq<char>| on_disk@.contains(x) == want.contains(x) by {
                    if before.contains(x) {
                        let j = choose|j: int|
                            0 <= j < front.len() && present@[j] && (#[trigger] front[j]).info().unit_hash
                                == x;
                        assert(more[j].info().unit_hash == x);
                    }
                    if present@[i as int] && x == h {
                        assert(more[i as int].info().unit_hash == x);
                    }
                    if want.contains(x) {
                        let j = choose|j: int|
                            0 <= j < more.len() && present@[j] && (#[trigger] more[j]).info().unit_hash
                                == x;
                        if j < i {
                            assert(front[j].info().unit_hash == x);
                        }
                    }
                }
                assert(on_disk@ =~= want);
            }
            i += 1;
        }
        assert(plans.take(units.len() as int) =~= plans);
        let (incomplete, _) = filter_units_with_incomplete_deps(&units, &saved, &on_disk);
        let r = RestoreSession {
            units,
            on_disk,
            incomplete,
            saved,
            known: HashMap::new(),
            next: 0,
            restored,
        };
        assert(r@.known =~= Map::<u64, fingerprint::FingerprintView>::empty());
        r
    }

    /// How many units are left out for their dependencies.
    pub fn incomplete_count(&self) -> (r: usize)
        ensures
            r == self@.incomplete.len(),
    {
        self.incomplete.len()
    }

    /// The next unit.
    pub fn next_unit(&self) -> (r: Option<&UnitPlan>)
        ensures
            match r {
                Some(u) => self@.next < self@.units.len() && u@ == self@.units[self@.next as int],
                None => self@.next >= self@.units.len(),
            },
    {
        if self.next < self.units.len() {
            Some(&self.units[self.next])
        } else {
            None
        }
    }

    /// Whether the fingerprint on disk of the next unit is needed.
    pub fn wants_local_fingerprint(&self) -> (r: bool)
        ensures
            r == wants_local(self@),
    {
        if self.next >= self.units.len() {
            return false;
        }
        let info = self.units[self.next].info();
        assert(workspace::plan_views(self.units@)[self.next as int].info().unit_hash
            == info.unit_hash@);
        !self.incomplete.contains(&info.unit_hash) && self.saved.contains(&info.unit_hash)
            && self.on_disk.contains(&info.unit_hash)
    }

    /// Deals with the next unit. Where its fingerprint on disk is needed, it is given
    /// as `local`. Where the unit cannot be dealt with, nothing changes.
    pub fn step(&mut self, ws: &Workspace, local: Option<Fingerprint>) -> (r: Result<
        RestoreStep,
        RestoreError,
    >)
        ensures
            ({
                let local_view = match local {
                    Some(f) => Some(f@),
                    None => None,
                };
                let want = next_step(*ws, old(self)@, local_view);
                match r {
                    Ok(step) => want == Ok::<(RestoreSessionView, RestoreStepView), RestoreError>(
                        (final(self)@, step@),
                    ),
                    Err(e) => {
                        &&& want == Err::<(RestoreSessionView, RestoreStepView), RestoreError>(e)
                        &&& final(self)@ == old(self)@
                    },
                }
            }),
    {
        if self.next >= self.units.len() {
            return Ok(RestoreStep::Done);
        }
        let ghost before = self@;
        let i: usize = self.next;
        let mtime: u64 = i as u64;
        let hash: UnitHash = self.units[i].info().unit_hash.clone();
        assert(before.units[i as int] == self.units@[i as int]@);
        if self.incomplete.contains(&hash) {
            self.next = i + 1;
            return Ok(RestoreStep::Incomplete);
        }
        if !self.saved.contains(&hash) {
            let touch = if self.on_disk.contains(&hash) {
                Some(self.units[i].touch(ws))
            } else {
                None
            };
            self.next = i + 1;
            return Ok(RestoreStep::Missing { touch, mtime });
        }
        if self.on_disk.contains(&hash) {
            let cached_hash: u64 = match self.saved.get(&hash) {
                Some(saved) => saved.fingerprint().clone().hash_u64(),
                None => 0,
            };
            match local {
                None => {
                    return Err(RestoreError::NoLocalFingerprint);
                },
                Some(f) => {
                    self.known.insert(cached_hash, f);
                    assert(fingerprint::known_views(self.known@) =~= before.known.insert(
                        cached_hash,
                        f@,
                    ));
                },
            }
            self.saved.remove(&hash);
            self.next = i + 1;
            return Ok(RestoreStep::Kept { touch: self.units[i].touch(ws), mtime });
        }
        let cached: Fingerprint = match self.saved.get(&hash) {
            Some(saved) => saved.fingerprint().clone(),
            None => Fingerprint::new(),
        };
        let src_path = self.units[i].src_path();
        if src_path.is_some() && cached.path == 0 {
            return Err(RestoreError::Rewrite(RewriteError::UnsetPath));
        }
        let cached_hash: u64 = cached.clone().hash_u64();
        let mut rewritten = match cached.replaced(src_path, &self.known) {
            Ok(f) => f,
            Err(e) => {
                return Err(RestoreError::Rewrite(e));
            },
        };
        let profile_dir = ws.unit_profile_dir(self.units[i].info());
        let hash_file = match self.units[i].fingerprint_hash_file() {
            Ok(f) => profile_dir.join_file(&f),
            Err(e) => {
                return Err(RestoreError::UnitFile(e));
            },
        };
        let json_file = match self.units[i].fingerprint_json_file() {
            Ok(f) => profile_dir.join_file(&f),
            Err(e) => {
                return Err(RestoreError::UnitFile(e));
            },
        };
        let files = match self.saved.get(&hash) {
            Some(saved) => files_to_restore(ws, &self.units[i], saved, mtime),
            None => Err(RestoreError::UnitTypeMismatch),
        };
        let hash_text: String = rewritten.fingerprint_hash();
        fingerprint::replace_known(&mut self.known, cached_hash, rewritten.clone());
        self.saved.remove(&hash);
        self.next = i + 1;
        if files.is_ok() {
            self.restored.insert_unit(&hash);
        }
        Ok(
            RestoreStep::Restore {
                mtime,
                hash_file,
                hash_text,
                json_file,
                fingerprint: rewritten,
                files,
            },
        )
    }

    /// What was restored, once its files were. A unit whose files did not all come is
    /// an error, and then no unit is reported. The keys of the files that came are
    /// reported too.
    pub fn finish(self, progress: &mut RestoreProgress, files: &Vec<Key>) -> (r: Result<
        Restored,
        Unfinished,
    >)
        ensures
            final(progress)@ == old(progress)@,
            match r {
                Ok(restored) => {
                    &&& all_delivered(self@, old(progress)@)
                    &&& restored.unit_hashes() == self@.restored
                    &&& restored.file_keys() == self@.restored_files.union(hex_texts(files@))
                },
                Err(e) => exists|i: int|
                    0 <= i < self@.units.len() && !is_delivered(
                        self@,
                        old(progress)@,
                        #[trigger] self@.units[i].info().unit_hash,
                    ) && e.unit_hash@ == self@.units[i].info().unit_hash && forall|j: int|
                        0 <= j < i ==> is_delivered(
                            self@,
                            old(progress)@,
                            #[trigger] self@.units[j].info().unit_hash,
                        ),
            },
    {
        let mut i: usize = 0;
        while i < self.units.len()
            invariant
                i <= self.units.len(),
                progress@ == old(progress)@,
                forall|j: int|
                    0 <= j < i ==> is_delivered(
                        self@,
                        old(progress)@,
                        #[trigger] self@.units[j].info().unit_hash,
                    ),
            decreases self.units.len() - i,
        {
            let hash: &UnitHash = &self.units[i].info().unit_hash;
            assert(self@.units[i as int] == self.units@[i as int]@);
            assert(hash@ == self@.units[i as int].info().unit_hash);
            if self.restored.has_unit(hash) && !self.on_disk.contains(hash)
                && !progress.is_complete(hash) {
                return Err(Unfinished { unit_hash: hash.clone() });
            }
            i += 1;
        }
        let mut restored: Restored = self.restored;
        let ghost units = restored.unit_hashes();
        let ghost before = restored.file_keys();
        let mut k: usize = 0;
        assert(before.union(hex_texts(files@.take(0))) =~= before);
        while k < files.len()
            invariant
                k <= files.len(),
                restored.unit_hashes() == units,
                restored.file_keys() == before.union(hex_texts(files@.take(k as int))),
            decreases files.len() - k,
        {
            restored.insert_file(&files[k]);
            proof {
                let more = files@.take(k + 1);
                let less = files@.take(k as int);
                let last = hash::hex_text(files@[k as int]@);
                assert forall|t: Seq<char>| hex_texts(more).contains(t) <==> hex_texts(
                    less,
                ).contains(t) || t == last by {
                    if hex_texts(less).contains(t) {
                        let j = choose|j: int|
                            0 <= j < less.len() && hash::hex_text((#[trigger] less[j])@) == t;
                        assert(hash::hex_text(more[j]@) == t);
                    }
                    assert(hash::hex_text(more[k as int]@) == last);
                    if hex_texts(more).contains(t) {
                        let j = choose|j: int|
                            0 <= j < more.len() && hash::hex_text((#[trigger] more[j])@) == t;
                        if j < k {
                            assert(hash::hex_text(less[j]@) == t);
                        }
                    }
                }
                assert(restored.file_keys() =~= before.union(hex_texts(more)));
            }
            k += 1;
        }
        assert(files@.take(files.len() as int) =~= files@);
        Ok(restored)
    }
}

/// The texts of keys.
pub open spec fn hex_texts(keys: Seq<Key>) -> Set<Seq<char>> {
    Set::new(
        |t: Seq<char>|
            exists|i: int| 0 <= i < keys.len() && hash::hex_text((#[trigger] keys[i])@) == t,
    )
}

/// Whether the files of a unit came, where it was restored and not on disk from the
/// start.
pub open spec fn is_delivered(
    s: RestoreSessionView,
    progress: Map<Seq<char>, Set<Seq<char>>>,
    hash: Seq<char>,
) -> bool {
    s.restored.contains(hash) && !s.on_disk.contains(hash) ==> transfer::unit_is_complete(
        progress,
        hash,
    )
}

/// Whether the files of all units came.
pub open spec fn all_delivered(
    s: RestoreSessionView,
    progress: Map<Seq<char>, Set<Seq<char>>>,
) -> bool {
    forall|i: int|
        0 <= i < s.units.len() ==> is_delivered(
            s,
            progress,
            #[trigger] s.units[i].info().unit_hash,
        )
}

/// Whether every unit that is entered as restored was on disk or is one of the units.
pub open spec fn restores_listed_units(s: RestoreSessionView) -> bool {
    forall|h: Seq<char>| #[trigger]
        s.restored.contains(h) ==> s.on_disk.contains(h) || exists|i: int|
            0 <= i < s.units.len() && #[trigger] s.units[i].info().unit_hash == h
}

/// Only units of the build are ever entered as restored: at first those on disk are,
/// and a step adds no other unit than its own.
pub proof fn law_steps_restore_listed_units(
    ws: Workspace,
    s: RestoreSessionView,
    local: Option<fingerprint::FingerprintView>,
)
    requires
        s.restored == s.on_disk || restores_listed_units(s),
        next_step(ws, s, local) is Ok,
    ensures
        restores_listed_units(s),
        restores_listed_units((next_step(ws, s, local)->Ok_0).0),
{
    let t = (next_step(ws, s, local)->Ok_0).0;
    assert forall|h: Seq<char>| #[trigger] t.restored.contains(h) implies t.on_disk.contains(h)
        || exists|i: int| 0 <= i < t.units.len() && #[trigger] t.units[i].info().unit_hash == h by {
        if !s.restored.contains(h) {
            assert(t.units[s.next as int].info().unit_hash == h);
        }
    }
}

/// A unit is reported as restored only once the contents of all its files were
/// received, unless it was on disk from the start. What is left of the unit is what
/// was begun without what was received.
pub proof fn law_units_are_reported_once_delivered(
    s: RestoreSessionView,
    progress: Map<Seq<char>, Set<Seq<char>>>,
    hash: Seq<char>,
    files: Seq<FileRestoreKeyView>,
    received: Set<Seq<char>>,
)
    requires
        restores_listed_units(s),
        all_delivered(s, progress),
        s.restored.contains(hash),
        !s.on_disk.contains(hash),
        progress.contains_key(hash) ==> progress[hash] == transfer::key_texts(files).difference(
            received,
        ),
    ensures
        forall|i: int|
            0 <= i < files.len() ==> received.contains(hash::hex_text((#[trigger] files[i]).key)),
{
    let i = choose|i: int|
        0 <= i < s.units.len() && #[trigger] s.units[i].info().unit_hash == hash;
    assert(is_delivered(s, progress, s.units[i].info().unit_hash));
    transfer::law_unit_is_complete_when_all_keys_are(files, received);
}

/// Every file of a unit gets the same modification time, and belongs to the unit.
pub proof fn law_files_of_a_unit_share_their_time(
    ws: Workspace,
    unit: workspace::UnitPlanView,
    saved: cache::SavedUnitView,
    mtime: u64,
    i: int,
)
    requires
        unit_files(ws, unit, saved, mtime) is Ok,
        0 <= i < (unit_files(ws, unit, saved, mtime)->Ok_0).files.len(),
    ensures
        (unit_files(ws, unit, saved, mtime)->Ok_0).files[i].mtime == mtime,
        (unit_files(ws, unit, saved, mtime)->Ok_0).files[i].unit_hash == unit.info().unit_hash,
{
}

/// Every unit is dealt with once: a step that is not the last one moves on to the
/// next unit, and keeps the units, what is on disk and what is left out.
pub proof fn law_steps_move_on(
    ws: Workspace,
    s: RestoreSessionView,
    local: Option<fingerprint::FingerprintView>,
)
    requires
        next_step(ws, s, local) is Ok,
    ensures
        ({
            let (t, step) = next_step(ws, s, local)->Ok_0;
            &&& t.units == s.units
            &&& t.on_disk == s.on_disk
            &&& t.incomplete == s.incomplete
            &&& t.restored_files == s.restored_files
            &&& s.restored.subset_of(t.restored)
            &&& step is Done <==> s.next >= s.units.len()
            &&& step is Done ==> t == s
            &&& !(step is Done) ==> t.next == s.next + 1
        }),
{
}

/// The time that a step gives to the files of its unit.
pub open spec fn step_time(step: RestoreStepView) -> Option<u64> {
    match step {
        RestoreStepView::Restore { mtime, .. } => Some(mtime),
        RestoreStepView::Kept { mtime, .. } => Some(mtime),
        RestoreStepView::Missing { touch: Some(_), mtime } => Some(mtime),
        _ => None,
    }
}

/// The modification times of units grow in their order, whether they are restored or
/// were on disk, and whether or not the cache returned them, so that the files of a
/// unit are never older than those of its dependencies: a step gives a unit a time
/// that is its place among the units, and a later step gives a later time.
pub proof fn law_restored_times_follow_the_order(
    ws: Workspace,
    s: RestoreSessionView,
    local: Option<fingerprint::FingerprintView>,
    later: RestoreSessionView,
    later_local: Option<fingerprint::FingerprintView>,
)
    requires
        next_step(ws, s, local) is Ok,
        next_step(ws, later, later_local) is Ok,
        s.next < later.next <= u64::MAX,
    ensures
        step_time((next_step(ws, s, local)->Ok_0).1) matches Some(t) ==> t == s.next,
        step_time((next_step(ws, s, local)->Ok_0).1) matches Some(t) ==> (step_time(
            (next_step(ws, later, later_local)->Ok_0).1,
        ) matches Some(u) ==> t < u),
{
}

/// What a restore of units with different hashes maintains, when it began with
/// `saved0`: units ahead are still there as they were returned, and the
/// fingerprint of every unit behind, that was returned and not left out, has a
/// replacement.
pub open spec fn keeps_track(
    s: RestoreSessionView,
    saved0: Map<Seq<char>, cache::SavedUnitView>,
) -> bool {
    &&& s.next <= s.units.len()
    &&& forall|i: int, j: int|
        #![trigger s.units[i], s.units[j]]
        0 <= i < j < s.units.len() ==> s.units[i].info().unit_hash != s.units[j].info().unit_hash
    &&& forall|i: int|
        #![trigger s.units[i]]
        s.next <= i < s.units.len() ==> {
            let h = s.units[i].info().unit_hash;
            s.saved.contains_key(h) == saved0.contains_key(h) && (saved0.contains_key(h)
                ==> s.saved[h] == saved0[h])
        }
    &&& forall|i: int|
        #![trigger s.units[i]]
        0 <= i < s.next ==> {
            let h = s.units[i].info().unit_hash;
            saved0.contains_key(h) && !s.incomplete.contains(h) ==> s.known.contains_key(
                fingerprint::hash_of(saved0[h].fingerprint()),
            )
        }
}

/// Every step maintains it.
pub proof fn law_steps_keep_track(
    ws: Workspace,
    s: RestoreSessionView,
    local: Option<fingerprint::FingerprintView>,
    saved0: Map<Seq<char>, cache::SavedUnitView>,
)
    requires
        keeps_track(s, saved0),
        next_step(ws, s, local) is Ok,
    ensures
        keeps_track((next_step(ws, s, local)->Ok_0).0, saved0),
{
    let t = (next_step(ws, s, local)->Ok_0).0;
    if s.next < s.units.len() {
        let n = s.next as int;
        assert forall|i: int|
            #![trigger t.units[i]]
            t.next <= i < t.units.len() implies {
            let h = t.units[i].info().unit_hash;
            t.saved.contains_key(h) == saved0.contains_key(h) && (saved0.contains_key(h)
                ==> t.saved[h] == saved0[h])
        } by {
            assert(s.units[n].info().unit_hash != s.units[i].info().unit_hash);
        }
        assert forall|i: int|
            #![trigger t.units[i]]
            0 <= i < t.next implies {
            let h = t.units[i].info().unit_hash;
            saved0.contains_key(h) && !t.incomplete.contains(h) ==> t.known.contains_key(
                fingerprint::hash_of(saved0[h].fingerprint()),
            )
        } by {
            let u = s.units[i];
        }
    }
}

/// Whether a unit is one that a restore restores: it was returned and not left out, was
/// not on disk, and is of the kind of its plan, with files that can be named.
pub open spec fn is_restored(
    ws: Workspace,
    s: RestoreSessionView,
    saved0: Map<Seq<char>, cache::SavedUnitView>,
    i: int,
) -> bool {
    let h = s.units[i].info().unit_hash;
    &&& saved0.contains_key(h)
    &&& !s.incomplete.contains(h)
    &&& !s.on_disk.contains(h)
    &&& unit_files(ws, s.units[i], saved0[h], i as u64) is Ok
}

/// Whether a restore that began with `saved0` reports the units that were on disk, and of
/// those that were dealt with exactly the ones that are restored.
pub open spec fn reports_restored(
    ws: Workspace,
    s: RestoreSessionView,
    saved0: Map<Seq<char>, cache::SavedUnitView>,
) -> bool {
    forall|h: Seq<char>| #[trigger]
        s.restored.contains(h) <==> s.on_disk.contains(h) || exists|i: int|
            0 <= i < s.next && #[trigger] s.units[i].info().unit_hash == h && is_restored(
                ws,
                s,
                saved0,
                i,
            )
}

/// What a restore reports is right from the start, and every step keeps it so. Once all
/// units were dealt with, exactly those are reported that were on disk, and those that
/// were returned, not left out, and of the kind of their plans.
pub proof fn law_restore_reports_what_it_restored(
    ws: Workspace,
    s: RestoreSessionView,
    local: Option<fingerprint::FingerprintView>,
    saved0: Map<Seq<char>, cache::SavedUnitView>,
)
    requires
        keeps_track(s, saved0),
        s.next == 0 && s.restored == s.on_disk || reports_restored(ws, s, saved0),
        next_step(ws, s, local) is Ok,
    ensures
        reports_restored(ws, s, saved0),
        reports_restored(ws, (next_step(ws, s, local)->Ok_0).0, saved0),
        s.next == s.units.len() ==> forall|h: Seq<char>| #[trigger]
            s.restored.contains(h) <==> s.on_disk.contains(h) || exists|i: int|
                0 <= i < s.units.len() && #[trigger] s.units[i].info().unit_hash == h
                    && is_restored(ws, s, saved0, i),
{
    let t = (next_step(ws, s, local)->Ok_0).0;
    if s.next < s.units.len() {
        let n = s.next as int;
        let own = s.units[n].info().unit_hash;
        assert forall|h: Seq<char>| #[trigger]
            t.restored.contains(h) <==> t.on_disk.contains(h) || exists|i: int|
                0 <= i < t.next && #[trigger] t.units[i].info().unit_hash == h && is_restored(
                    ws,
                    t,
                    saved0,
                    i,
                ) by {
            assert(s.restored.contains(h) <==> s.on_disk.contains(h) || exists|i: int|
                0 <= i < s.next && #[trigger] s.units[i].info().unit_hash == h && is_restored(
                    ws,
                    s,
                    saved0,
                    i,
                ));
            if s.restored.contains(h) && !s.on_disk.contains(h) {
                let i = choose|i: int|
                    0 <= i < s.next && #[trigger] s.units[i].info().unit_hash == h && is_restored(
                        ws,
                        s,
                        saved0,
                        i,
                    );
                assert(t.units[i].info().unit_hash == h && is_restored(ws, t, saved0, i));
            }
            if t.restored.contains(h) && !s.restored.contains(h) {
                assert(h == own);
                assert(t.units[n].info().unit_hash == h && is_restored(ws, t, saved0, n));
            }
            if exists|i: int|
                0 <= i < t.next && #[trigger] t.units[i].info().unit_hash == h && is_restored(
                    ws,
                    t,
                    saved0,
                    i,
                ) {
                let i = choose|i: int|
                    0 <= i < t.next && #[trigger] t.units[i].info().unit_hash == h && is_restored(
                        ws,
                        t,
                        saved0,
                        i,
                    );
                if i < n {
                    assert(s.units[i].info().unit_hash == h && is_restored(ws, s, saved0, i));
                } else {
                    assert(i == n);
                }
            }
        }
    }
}

/// Rewriting the fingerprint of a unit never lacks a dependency, if the
/// fingerprint depends on units that come earlier, were returned by the cache and
/// were not left out.
pub proof fn law_saved_dependencies_are_found(
    ws: Workspace,
    s: RestoreSessionView,
    local: Option<fingerprint::FingerprintView>,
    saved0: Map<Seq<char>, cache::SavedUnitView>,
)
    requires
        keeps_track(s, saved0),
        s.next < s.units.len(),
        saved0.contains_key(s.units[s.next as int].info().unit_hash),
        ({
            let cached = saved0[s.units[s.next as int].info().unit_hash].fingerprint();
            forall|k: int|
                #![trigger cached.deps[k]]
                0 <= k < cached.deps.len() ==> exists|i: int|
                    #![trigger s.units[i]]
                    0 <= i < s.next && saved0.contains_key(s.units[i].info().unit_hash)
                        && !s.incomplete.contains(s.units[i].info().unit_hash)
                        && fingerprint::hash_of(
                        saved0[s.units[i].info().unit_hash].fingerprint(),
                    ) == fingerprint::hash_of(cached.deps[k].fingerprint)
        }),
    ensures
        next_step(ws, s, local) != Err::<(RestoreSessionView, RestoreStepView), RestoreError>(
            RestoreError::Rewrite(RewriteError::UnknownDependency),
        ),
{
    let h = s.units[s.next as int].info().unit_hash;
    let cached = saved0[h].fingerprint();
    assert forall|k: int| 0 <= k < cached.deps.len() implies s.known.contains_key(
        #[trigger] fingerprint::hash_of(cached.deps[k].fingerprint),
    ) by {
        let d = cached.deps[k];
        let i = choose|i: int|
            #![trigger s.units[i]]
            0 <= i < s.next && saved0.contains_key(s.units[i].info().unit_hash)
                && !s.incomplete.contains(s.units[i].info().unit_hash) && fingerprint::hash_of(
                saved0[s.units[i].info().unit_hash].fingerprint(),
            ) == fingerprint::hash_of(d.fingerprint);
        let u = s.units[i];
    }
    assert(fingerprint::deps_known(cached, s.known));
}

/// A kind of unit has its own name.
pub proof fn law_names_of_unit_kinds(unit: workspace::UnitPlanView)
    ensures
        unit is LibraryCrate ==> type_name_of(unit) == "LibraryCrate"@,
        unit is BuildScriptCompilation ==> type_name_of(unit) == "BuildScriptCompilation"@,
        unit is BuildScriptExecution ==> type_name_of(unit) == "BuildScriptExecution"@,
{
}

/// A unit is on disk where its fingerprint is, below the profile directory of its
/// platform. The units on disk are those whose fingerprints are there. Only units that are
/// on disk or were returned by the cache count as there for those that depend on them.
pub proof fn law_fingerprints_tell_what_is_on_disk(
    ws: Workspace,
    unit: workspace::UnitPlanView,
    units: Seq<workspace::UnitPlanView>,
    present: Seq<bool>,
    saved: Map<Seq<char>, cache::SavedUnitView>,
    h: Seq<char>,
)
    ensures
        ({
            let profile = match unit.info().target_arch {
                None => path::join(ws.build_dir@, ws.profile@),
                Some(triple) => path::join(path::join(ws.build_dir@, triple), ws.profile@),
            };
            match unit.fingerprint_json_file() {
                Ok(file) => presence_file(ws, unit) == Ok::<Seq<char>, UnitFileError>(
                    path::join(profile, file),
                ),
                Err(e) => presence_file(ws, unit) == Err::<Seq<char>, UnitFileError>(e),
            }
        }),
        on_disk_of(units, present).contains(h) <==> exists|i: int|
            0 <= i < units.len() && present[i] && (#[trigger] units[i]).info().unit_hash == h,
        base_of(saved, on_disk_of(units, present)).contains(h) <==> saved.contains_key(h)
            || on_disk_of(units, present).contains(h),
{
}

/// The fingerprint on disk is asked for exactly where the next unit is kept: it was
/// returned by the cache, is not left out, and is on disk.
pub proof fn law_local_fingerprints_are_asked_for_when_needed(
    ws: Workspace,
    s: RestoreSessionView,
)
    ensures
        wants_local(s) <==> next_step(ws, s, None) == Err::<
            (RestoreSessionView, RestoreStepView),
            RestoreError,
        >(RestoreError::NoLocalFingerprint),
{
}

} // verus!
