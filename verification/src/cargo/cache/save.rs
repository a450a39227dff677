//! Saving units to the cache.

use std::collections::HashMap;
use vstd::prelude::*;
use vstd::string::*;

use crate::cargo::cache;
use crate::cargo::cache::restore;
use crate::cargo::cache::restore::{Restored, RestoredFileKind};
use crate::cargo::cache::{SavedFile, SavedUnit, StoredFile};
use crate::cargo::fingerprint;
use crate::cargo::fingerprint::Fingerprint;
use crate::cargo::glibc::GLIBCVersion;
use crate::cargo::path as qualified;
use crate::cargo::rustc;
use crate::cargo::rustc::{RustcTarget, RustcTargetPlatform};
use crate::cargo::units::library_crate;
use crate::cargo::workspace;
use crate::cargo::workspace::{UnitHash, UnitPlan, Workspace};
use crate::hash;
use crate::hash::Key;
use crate::path;
use crate::path::RelFilePath;
use crate::text;

verus! {

broadcast use vstd::std_specs::hash::group_hash_axioms;

/// How far a save has come.
#[derive(Debug, Clone, Copy, PartialEq, Eq, Hash, Structural)]
pub struct SaveProgress {
    pub uploaded_units: u64,
    pub total_units: u64,
    pub uploaded_files: u64,
    pub uploaded_bytes: u64,
}

/// The files of a unit, with their contents. Files that are parsed are given as
/// they are stored.
#[derive(Debug)]
pub enum UnitContents {
    /// The files of a unit that compiles a library crate.
    LibraryCrate {
        fingerprint: Fingerprint,
        output_files: Vec<SavedFile>,
        dep_info_file: Vec<u8>,
        encoded_dep_info_file: Vec<u8>,
    },
    /// The files of a unit that compiles a build script.
    BuildScriptCompilation {
        fingerprint: Fingerprint,
        compiled_program: Vec<u8>,
        dep_info_file: Vec<u8>,
        encoded_dep_info_file: Vec<u8>,
    },
    /// The files of a unit that runs a build script.
    BuildScriptExecution {
        fingerprint: Fingerprint,
        out_dir_files: Vec<SavedFile>,
        stdout: Vec<u8>,
        stderr: Vec<u8>,
    },
}

/// Contents that are stored under their key.
#[derive(Debug)]
pub struct Upload {
    pub key: Key,
    pub contents: Vec<u8>,
}

/// An [`Upload`]: the key and the contents.
pub open spec fn upload_view(u: Upload) -> (Seq<u8>, Seq<u8>) {
    (u.key@, u.contents@)
}

/// The views of a sequence of uploads.
pub open spec fn upload_views(v: Seq<Upload>) -> Seq<(Seq<u8>, Seq<u8>)> {
    Seq::new(v.len(), |i: int| upload_view(v[i]))
}

/// Contents with their key.
pub open spec fn keyed(contents: Seq<u8>) -> (Seq<u8>, Seq<u8>) {
    (hash::blake3_digest(contents), contents)
}

/// What is stored of a list of files.
pub open spec fn stored_files(files: Seq<SavedFile>) -> Seq<cache::StoredFileView> {
    Seq::new(
        files.len(),
        |i: int|
            cache::StoredFileView {
                object_key: hash::blake3_digest(files[i].contents@),
                executable: files[i].executable,
                path: files[i].path@,
            },
    )
}

/// The contents of a list of files, with their keys.
pub open spec fn file_uploads(files: Seq<SavedFile>) -> Seq<(Seq<u8>, Seq<u8>)> {
    Seq::new(files.len(), |i: int| keyed(files[i].contents@))
}

/// What is uploaded of a unit, in order.
pub open spec fn uploads_of(unit: UnitContents) -> Seq<(Seq<u8>, Seq<u8>)> {
    match unit {
        UnitContents::LibraryCrate {
            output_files,
            dep_info_file,
            encoded_dep_info_file,
            ..
        } => file_uploads(output_files@) + seq![
            keyed(dep_info_file@),
            keyed(encoded_dep_info_file@),
        ],
        UnitContents::BuildScriptCompilation {
            compiled_program,
            dep_info_file,
            encoded_dep_info_file,
            ..
        } => seq![
            keyed(compiled_program@),
            keyed(dep_info_file@),
            keyed(encoded_dep_info_file@),
        ],
        UnitContents::BuildScriptExecution { out_dir_files, stdout, stderr, .. } => file_uploads(
            out_dir_files@,
        ) + seq![keyed(stdout@), keyed(stderr@)],
    }
}

/// What is saved of a unit: its fingerprint, here as it was read, and the keys of its
/// files.
pub open spec fn saved_of(unit: UnitContents) -> cache::SavedUnitView {
    match unit {
        UnitContents::LibraryCrate {
            fingerprint,
            output_files,
            dep_info_file,
            encoded_dep_info_file,
        } => cache::SavedUnitView::LibraryCrate {
            fingerprint: fingerprint@,
            output_files: stored_files(output_files@),
            dep_info_file: hash::blake3_digest(dep_info_file@),
            encoded_dep_info_file: hash::blake3_digest(encoded_dep_info_file@),
        },
        UnitContents::BuildScriptCompilation {
            fingerprint,
            compiled_program,
            dep_info_file,
            encoded_dep_info_file,
        } => cache::SavedUnitView::BuildScriptCompilation {
            fingerprint: fingerprint@,
            compiled_program: hash::blake3_digest(compiled_program@),
            dep_info_file: hash::blake3_digest(dep_info_file@),
            encoded_dep_info_file: hash::blake3_digest(encoded_dep_info_file@),
        },
        UnitContents::BuildScriptExecution { fingerprint, out_dir_files, stdout, stderr } => {
            cache::SavedUnitView::BuildScriptExecution {
                fingerprint: fingerprint@,
                out_dir_files: stored_files(out_dir_files@),
                stdout: hash::blake3_digest(stdout@),
                stderr: hash::blake3_digest(stderr@),
            }
        },
    }
}

/// How many bytes some uploads hold.
pub open spec fn total_bytes(uploads: Seq<(Seq<u8>, Seq<u8>)>) -> nat
    decreases uploads.len(),
{
    if uploads.len() == 0 {
        0
    } else {
        total_bytes(uploads.drop_last()) + uploads.last().1.len()
    }
}

fn upload(contents: Vec<u8>) -> (r: Upload)
    ensures
        upload_view(r) == keyed(contents@),
{
    let key = Key::from_buffer(&contents);
    Upload { key, contents }
}

fn store_files(files: Vec<SavedFile>) -> (r: (Vec<Upload>, Vec<StoredFile>))
    ensures
        upload_views(r.0@) == file_uploads(files@),
        cache::stored_views(r.1@) == stored_files(files@),
{
    let ghost all = files@;
    let n: usize = files.len();
    let mut rest: Vec<SavedFile> = files;
    let mut uploads: Vec<Upload> = Vec::new();
    let mut stored: Vec<StoredFile> = Vec::new();
    let mut i: usize = 0;
    assert(all.skip(0) =~= all);
    while i < n
        invariant
            i <= n,
            n == all.len(),
            rest@ == all.skip(i as int),
            uploads.len() == i,
            stored.len() == i,
            forall|j: int|
                0 <= j < i ==> upload_view(#[trigger] uploads@[j]) == keyed(all[j].contents@),
            forall|j: int| 0 <= j < i ==> #[trigger] stored@[j]@ == stored_files(all)[j],
        decreases n - i,
    {
        let file: SavedFile = rest.remove(0);
        assert(file == all[i as int]);
        assert(rest@ =~= all.skip(i + 1));
        let u = upload(file.contents);
        stored.push(
            StoredFile { object_key: u.key.clone(), executable: file.executable, path: file.path },
        );
        uploads.push(u);
        i += 1;
    }
    assert(upload_views(uploads@) =~= file_uploads(all));
    assert(cache::stored_views(stored@) =~= stored_files(all));
    (uploads, stored)
}

/// What is uploaded and what is saved of a unit, with the fingerprint as it was read.
pub fn prepare_unit(unit: UnitContents) -> (r: (Vec<Upload>, SavedUnit))
    ensures
        upload_views(r.0@) == uploads_of(unit),
        r.1@ == saved_of(unit),
{
    match unit {
        UnitContents::LibraryCrate {
            fingerprint,
            output_files,
            dep_info_file,
            encoded_dep_info_file,
        } => {
            let ghost files = output_files@;
            let (mut uploads, stored) = store_files(output_files);
            let dep_info = upload(dep_info_file);
            let encoded = upload(encoded_dep_info_file);
            let saved = SavedUnit::LibraryCrate {
                fingerprint,
                output_files: stored,
                dep_info_file: dep_info.key.clone(),
                encoded_dep_info_file: encoded.key.clone(),
            };
            uploads.push(dep_info);
            uploads.push(encoded);
            assert(upload_views(uploads@) =~= uploads_of(unit));
            (uploads, saved)
        },
        UnitContents::BuildScriptCompilation {
            fingerprint,
            compiled_program,
            dep_info_file,
            encoded_dep_info_file,
        } => {
            let program = upload(compiled_program);
            let dep_info = upload(dep_info_file);
            let encoded = upload(encoded_dep_info_file);
            let saved = SavedUnit::BuildScriptCompilation {
                fingerprint,
                compiled_program: program.key.clone(),
                dep_info_file: dep_info.key.clone(),
                encoded_dep_info_file: encoded.key.clone(),
            };
            let mut uploads: Vec<Upload> = Vec::new();
            uploads.push(program);
            uploads.push(dep_info);
            uploads.push(encoded);
            assert(upload_views(uploads@) =~= uploads_of(unit));
            (uploads, saved)
        },
        UnitContents::BuildScriptExecution { fingerprint, out_dir_files, stdout, stderr } => {
            let (mut uploads, stored) = store_files(out_dir_files);
            let out = upload(stdout);
            let err = upload(stderr);
            let saved = SavedUnit::BuildScriptExecution {
                fingerprint,
                out_dir_files: stored,
                stdout: out.key.clone(),
                stderr: err.key.clone(),
            };
            uploads.push(out);
            uploads.push(err);
            assert(upload_views(uploads@) =~= uploads_of(unit));
            (uploads, saved)
        },
    }
}

/// The hash of the path of a unit's source file as seen from `$CARGO_HOME`, if it lies
/// there.
pub open spec fn saved_path(ws: Workspace, unit: workspace::UnitPlanView) -> Option<u64> {
    match unit.src_path() {
        Some(p) => match path::below(ws.cargo_home@, p) {
            Some(rel) => Some(fingerprint::path_hash(rel)),
            None => None,
        },
        None => None,
    }
}

/// The fingerprint of a unit as it is saved, where `known` holds those of the units
/// before it, by their hashes on this machine.
pub open spec fn saved_fingerprint(
    ws: Workspace,
    unit: workspace::UnitPlanView,
    f: fingerprint::FingerprintView,
    known: Map<u64, fingerprint::FingerprintView>,
) -> fingerprint::FingerprintView {
    fingerprint::portable(f, saved_path(ws, unit), known)
}

/// What is saved of a unit, with its fingerprint as it is saved.
pub open spec fn portable_of(
    ws: Workspace,
    unit: workspace::UnitPlanView,
    contents: UnitContents,
    known: Map<u64, fingerprint::FingerprintView>,
) -> cache::SavedUnitView {
    let saved = saved_of(contents);
    saved.with_fingerprint(saved_fingerprint(ws, unit, saved.fingerprint(), known))
}

/// The fingerprints of units as they are saved, by their hashes on this machine. A
/// fingerprint holds hashes of absolute paths, its own and those of its dependencies. As
/// it is saved it holds hashes of paths as seen from `$CARGO_HOME`.
pub struct SavedFingerprints {
    known: HashMap<u64, Fingerprint>,
}

impl View for SavedFingerprints {
    type V = Map<u64, fingerprint::FingerprintView>;

    closed spec fn view(&self) -> Map<u64, fingerprint::FingerprintView> {
        fingerprint::known_views(self.known@)
    }
}

impl SavedFingerprints {
    /// No fingerprints.
    pub fn new() -> (r: SavedFingerprints)
        ensures
            r@ == Map::<u64, fingerprint::FingerprintView>::empty(),
    {
        let r = SavedFingerprints { known: HashMap::new() };
        assert(r@ =~= Map::<u64, fingerprint::FingerprintView>::empty());
        r
    }

    /// Enters the fingerprint that a unit has on this machine, and tells what it is
    /// saved as. Units are entered in dependency order, those that are not saved too.
    pub fn enter(&mut self, ws: &Workspace, unit: &UnitPlan, f: Fingerprint) -> (r: Fingerprint)
        ensures
            r@ == saved_fingerprint(*ws, unit@, f@, old(self)@),
            final(self)@ == old(self)@.insert(fingerprint::hash_of(f@), r@),
    {
        let rel: Option<RelFilePath> = match unit.src_path() {
            Some(p) => p.relative_to(&ws.cargo_home),
            None => None,
        };
        let local_hash: u64 = f.clone().hash_u64();
        let saved = f.into_portable(rel, &self.known);
        fingerprint::replace_known(&mut self.known, local_hash, saved.clone());
        saved
    }
}

/// A unit that the cache is asked to save.
#[derive(Debug)]
pub struct SaveRequest {
    pub unit_hash: UnitHash,
    pub unit: SavedUnit,
    /// The plan that the unit was built by.
    pub plan: UnitPlan,
}

/// A [`SaveRequest`] in terms of characters and bytes.
#[verifier::ext_equal]
pub struct SaveRequestView {
    pub unit_hash: Seq<char>,
    pub unit: cache::SavedUnitView,
    pub plan: workspace::UnitPlanView,
}

impl View for SaveRequest {
    type V = SaveRequestView;

    open spec fn view(&self) -> SaveRequestView {
        SaveRequestView { unit_hash: self.unit_hash@, unit: self.unit@, plan: self.plan@ }
    }
}

/// The views of a sequence of requests.
pub open spec fn request_views(v: Seq<SaveRequest>) -> Seq<SaveRequestView> {
    Seq::new(v.len(), |i: int| v[i]@)
}

/// What is done for the next unit.
pub enum SaveStep {
    /// There is no next unit.
    Done,
    /// The unit was restored from the cache, and is not saved again.
    Skipped,
    /// The contents of the unit are needed.
    NeedContents,
    /// The uploads counted so far do not leave room to count those of the unit.
    Overflow,
    /// The contents of the unit are uploaded.
    Upload(Vec<Upload>),
}

/// A save that is under way.
pub struct SaveSession {
    units: Vec<UnitPlan>,
    next: usize,
    progress: SaveProgress,
    requests: Vec<SaveRequest>,
    fingerprints: SavedFingerprints,
}

/// The state of a save.
#[verifier::ext_equal]
pub struct SaveSessionView {
    pub units: Seq<workspace::UnitPlanView>,
    pub next: nat,
    pub progress: SaveProgress,
    pub requests: Seq<SaveRequestView>,
    /// The fingerprints as they are saved, by their hashes on this machine.
    pub known: Map<u64, fingerprint::FingerprintView>,
}

impl View for SaveSession {
    type V = SaveSessionView;

    closed spec fn view(&self) -> SaveSessionView {
        SaveSessionView {
            units: workspace::plan_views(self.units@),
            next: self.next as nat,
            progress: self.progress,
            requests: request_views(self.requests@),
            known: self.fingerprints@,
        }
    }
}

impl SaveSessionView {
    /// What every save maintains: the units that are left, and those that were
    /// uploaded, are all there are; and every unit that was uploaded is requested.
    pub open spec fn is_consistent(self) -> bool {
        &&& self.next <= self.units.len()
        &&& self.progress.total_units == self.progress.uploaded_units + (self.units.len()
            - self.next)
        &&& self.progress.uploaded_units == self.requests.len()
        &&& self.progress.uploaded_units <= self.next
    }

    /// The fingerprints once that of the next unit is entered.
    pub open spec fn entered(
        self,
        ws: Workspace,
        f: fingerprint::FingerprintView,
    ) -> Map<u64, fingerprint::FingerprintView> {
        self.known.insert(
            fingerprint::hash_of(f),
            saved_fingerprint(ws, self.units[self.next as int], f, self.known),
        )
    }

    /// The state after a unit that is not saved again, given its fingerprint, where it
    /// is known.
    pub open spec fn after_skip(
        self,
        ws: Workspace,
        local: Option<fingerprint::FingerprintView>,
    ) -> SaveSessionView {
        SaveSessionView {
            known: match local {
                Some(f) => self.entered(ws, f),
                None => self.known,
            },
            next: self.next + 1,
            progress: SaveProgress {
                total_units: (self.progress.total_units - 1) as u64,
                ..self.progress
            },
            ..self
        }
    }

    /// Whether the uploads of a unit can be counted.
    pub open spec fn has_room(self, unit: UnitContents) -> bool {
        &&& self.progress.uploaded_files + uploads_of(unit).len() <= u64::MAX
        &&& self.progress.uploaded_bytes + total_bytes(uploads_of(unit)) <= u64::MAX
    }

    /// The state after a unit that is uploaded.
    pub open spec fn after_upload(self, ws: Workspace, unit: UnitContents) -> SaveSessionView {
        SaveSessionView {
            known: self.entered(ws, saved_of(unit).fingerprint()),
            next: self.next + 1,
            progress: SaveProgress {
                uploaded_units: (self.progress.uploaded_units + 1) as u64,
                total_units: self.progress.total_units,
                uploaded_files: (self.progress.uploaded_files + uploads_of(unit).len()) as u64,
                uploaded_bytes: (self.progress.uploaded_bytes + total_bytes(
                    uploads_of(unit),
                )) as u64,
            },
            requests: self.requests.push(
                SaveRequestView {
                    unit_hash: self.units[self.next as int].info().unit_hash,
                    unit: portable_of(ws, self.units[self.next as int], unit, self.known),
                    plan: self.units[self.next as int],
                },
            ),
            ..self
        }
    }

    /// The state after a step, given the units that are skipped, and of the next unit
    /// the fingerprint, where it is skipped, and the contents, where they were read.
    pub open spec fn after_step(
        self,
        ws: Workspace,
        skip: Set<Seq<char>>,
        local: Option<fingerprint::FingerprintView>,
        contents: Option<UnitContents>,
    ) -> SaveSessionView {
        if self.next >= self.units.len() {
            self
        } else if skip.contains(self.units[self.next as int].info().unit_hash) {
            self.after_skip(ws, local)
        } else {
            match contents {
                Some(c) if self.has_room(c) => self.after_upload(ws, c),
                _ => self,
            }
        }
    }

    /// Whether the requests are for exactly those units that were dealt with and not
    /// skipped, in order.
    pub open spec fn requests_unskipped(self, skip: Set<Seq<char>>) -> bool {
        &&& requested_plans(self.requests) == unskipped(self.units.take(self.next as int), skip)
        &&& forall|i: int|
            0 <= i < self.requests.len() ==> (#[trigger] self.requests[i]).unit_hash
                == self.requests[i].plan.info().unit_hash
    }
}

/// The plans of the units that are requested.
pub open spec fn requested_plans(requests: Seq<SaveRequestView>) -> Seq<workspace::UnitPlanView> {
    Seq::new(requests.len(), |i: int| requests[i].plan)
}

/// The units that are not skipped, in order.
pub open spec fn unskipped(
    units: Seq<workspace::UnitPlanView>,
    skip: Set<Seq<char>>,
) -> Seq<workspace::UnitPlanView>
    decreases units.len(),
{
    if units.len() == 0 {
        Seq::empty()
    } else {
        let before = unskipped(units.drop_last(), skip);
        if skip.contains(units.last().info().unit_hash) {
            before
        } else {
            before.push(units.last())
        }
    }
}

proof fn lemma_total_bytes_mono(uploads: Seq<(Seq<u8>, Seq<u8>)>, i: int)
    requires
        0 <= i <= uploads.len(),
    ensures
        total_bytes(uploads.take(i)) <= total_bytes(uploads),
    decreases uploads.len(),
{
    if i == uploads.len() {
        assert(uploads.take(i) =~= uploads);
    } else {
        lemma_total_bytes_mono(uploads.drop_last(), i);
        assert(uploads.drop_last().take(i) =~= uploads.take(i));
    }
}

/// `start` and the bytes of some uploads, where that fits.
fn count_bytes(start: u64, uploads: &Vec<Upload>) -> (r: Option<u64>)
    ensures
        match r {
            Some(n) => n == start + total_bytes(upload_views(uploads@)),
            None => start + total_bytes(upload_views(uploads@)) > u64::MAX,
        },
{
    let ghost all = upload_views(uploads@);
    let mut n: u64 = start;
    let mut i: usize = 0;
    while i < uploads.len()
        invariant
            i <= uploads.len(),
            all == upload_views(uploads@),
            n == start + total_bytes(all.take(i as int)),
        decreases uploads.len() - i,
    {
        proof {
            assert(all.take(i + 1).drop_last() =~= all.take(i as int));
            assert(all.take(i + 1).last() == upload_view(uploads@[i as int]));
            lemma_total_bytes_mono(all, i + 1);
        }
        let len: u64 = uploads[i].contents.len() as u64;
        n = match n.checked_add(len) {
            Some(m) => m,
            None => {
                return None;
            },
        };
        i += 1;
    }
    assert(all.take(uploads.len() as int) =~= all);
    Some(n)
}

impl SaveSession {
    #[verifier::type_invariant]
    spec fn inv(self) -> bool {
        &&& self.next <= self.units@.len()
        &&& self.progress.total_units == self.progress.uploaded_units + (self.units@.len()
            - self.next)
        &&& self.progress.uploaded_units == self.requests@.len()
        &&& self.progress.uploaded_units <= self.next
    }

    /// Begins to save units.
    pub fn new(units: Vec<UnitPlan>) -> (r: SaveSession)
        ensures
            r@.is_consistent(),
            r@ == (SaveSessionView {
                units: workspace::plan_views(units@),
                next: 0,
                progress: SaveProgress {
                    uploaded_units: 0,
                    total_units: units@.len() as u64,
                    uploaded_files: 0,
                    uploaded_bytes: 0,
                },
                requests: Seq::empty(),
                known: Map::empty(),
            }),
    {
        let total: u64 = units.len() as u64;
        let r = SaveSession {
            units,
            next: 0,
            progress: SaveProgress {
                uploaded_units: 0,
                total_units: total,
                uploaded_files: 0,
                uploaded_bytes: 0,
            },
            requests: Vec::new(),
            fingerprints: SavedFingerprints::new(),
        };
        assert(r@.requests =~= Seq::empty());
        r
    }

    /// How far the save has come.
    pub fn progress(&self) -> (r: SaveProgress)
        ensures
            r == self@.progress,
            self@.is_consistent(),
    {
        proof {
            use_type_invariant(self);
        }
        self.progress
    }

    /// The next unit.
    pub fn next_unit(&self) -> (r: Option<&UnitPlan>)
        ensures
            match r {
                Some(u) => self@.next < self@.units.len() && u@ == self@.units[self@.next as int],
                None => self@.next >= self@.units.len(),
            },
    {
        if self.next < self.units.len() {
            Some(&self.units[self.next])
        } else {
            None
        }
    }

    /// Whether the next unit is skipped, so that its fingerprint on disk is asked for.
    pub fn wants_local_fingerprint(&self, skip: &Restored) -> (r: bool)
        ensures
            r == (self@.next < self@.units.len() && skip.unit_hashes().contains(
                self@.units[self@.next as int].info().unit_hash,
            )),
    {
        match self.next_unit() {
            Some(unit) => skip.has_unit(&unit.info().unit_hash),
            None => false,
        }
    }

    /// Deals with the next unit. Unless it was restored from the cache, its contents
    /// are needed. If it was, its fingerprint on disk is given as `local`, for the
    /// fingerprints of its dependents.
    pub fn step(
        self,
        ws: &Workspace,
        skip: &Restored,
        local: Option<Fingerprint>,
        contents: Option<UnitContents>,
    ) -> (r: (SaveSession, SaveStep))
        ensures
            self@.is_consistent(),
            r.0@.is_consistent(),
            r.0@ == self@.after_step(
                *ws,
                skip.unit_hashes(),
                match local {
                    Some(f) => Some(f@),
                    None => None,
                },
                contents,
            ),
            ({
                let s = self@;
                let unit = s.units[s.next as int];
                if s.next >= s.units.len() {
                    r.1 is Done
                } else if skip.unit_hashes().contains(unit.info().unit_hash) {
                    r.1 is Skipped
                } else {
                    match contents {
                        None => r.1 is NeedContents,
                        Some(c) => if s.has_room(c) {
                            &&& r.1 matches SaveStep::Upload(uploads)
                            &&& upload_views(uploads@) == uploads_of(c)
                        } else {
                            r.1 is Overflow
                        },
                    }
                }
            }),
    {
        proof {
            use_type_invariant(&self);
        }
        if self.next >= self.units.len() {
            return (self, SaveStep::Done);
        }
        let ghost s = self@;
        let hash: UnitHash = self.units[self.next].info().unit_hash.clone();
        assert(s.units[s.next as int] == self.units@[s.next as int]@);
        if skip.has_unit(&hash) {
            let progress = SaveProgress {
                uploaded_units: self.progress.uploaded_units,
                total_units: self.progress.total_units - 1,
                uploaded_files: self.progress.uploaded_files,
                uploaded_bytes: self.progress.uploaded_bytes,
            };
            let mut fingerprints: SavedFingerprints = self.fingerprints;
            if let Some(f) = local {
                fingerprints.enter(ws, &self.units[self.next], f);
            }
            let r = SaveSession {
                units: self.units,
                next: self.next + 1,
                progress,
                requests: self.requests,
                fingerprints,
            };
            return (r, SaveStep::Skipped);
        }
        let contents = match contents {
            Some(c) => c,
            None => {
                return (self, SaveStep::NeedContents);
            },
        };
        let (uploads, unit) = prepare_unit(contents);
        let files: Option<u64> = self.progress.uploaded_files.checked_add(uploads.len() as u64);
        let bytes: Option<u64> = count_bytes(self.progress.uploaded_bytes, &uploads);
        assert(upload_views(uploads@).len() == uploads@.len());
        match (files, bytes) {
            (Some(uploaded_files), Some(uploaded_bytes)) => {
                let progress = SaveProgress {
                    uploaded_units: self.progress.uploaded_units + 1,
                    total_units: self.progress.total_units,
                    uploaded_files,
                    uploaded_bytes,
                };
                let mut fingerprints: SavedFingerprints = self.fingerprints;
                let saved = fingerprints.enter(
                    ws,
                    &self.units[self.next],
                    unit.fingerprint().clone(),
                );
                let mut requests: Vec<SaveRequest> = self.requests;
                let ghost before = request_views(requests@);
                let request = SaveRequest {
                    unit_hash: hash,
                    unit: unit.with_fingerprint(saved),
                    plan: self.units[self.next].clone(),
                };
                requests.push(request);
                assert(request_views(requests@) =~= before.push(request@));
                let r = SaveSession {
                    units: self.units,
                    next: self.next + 1,
                    progress,
                    requests,
                    fingerprints,
                };
                (r, SaveStep::Upload(uploads))
            },
            _ => (self, SaveStep::Overflow),
        }
    }

    /// The units that the cache is asked to save.
    pub fn finish(self) -> (r: Vec<SaveRequest>)
        ensures
            request_views(r@) == self@.requests,
    {
        self.requests
    }
}

/// A save requests exactly the units that were dealt with and not skipped, in order:
/// at first nothing is requested, and every step keeps it so.
pub proof fn law_steps_request_unskipped_units(
    ws: Workspace,
    s: SaveSessionView,
    skip: Set<Seq<char>>,
    local: Option<fingerprint::FingerprintView>,
    contents: Option<UnitContents>,
)
    requires
        s.next == 0 && s.requests.len() == 0 || s.requests_unskipped(skip),
    ensures
        s.requests_unskipped(skip),
        s.after_step(ws, skip, local, contents).requests_unskipped(skip),
{
    let t = s.after_step(ws, skip, local, contents);
    if s.next == 0 && s.requests.len() == 0 {
        assert(requested_plans(s.requests) =~= unskipped(s.units.take(0), skip));
    }
    if t.next != s.next {
        assert(t.units.take(t.next as int).drop_last() =~= s.units.take(s.next as int));
        assert(t.units.take(t.next as int).last() == s.units[s.next as int]);
        if t.requests.len() != s.requests.len() {
            assert(requested_plans(t.requests) =~= requested_plans(s.requests).push(
                s.units[s.next as int],
            ));
        }
    }
}

/// Once every unit was dealt with, exactly those that were not skipped are requested,
/// in order. They are all uploaded, and the total counts no others.
pub proof fn law_finished_save_is_complete(s: SaveSessionView, skip: Set<Seq<char>>)
    requires
        s.is_consistent(),
        s.requests_unskipped(skip),
        s.next == s.units.len(),
    ensures
        requested_plans(s.requests) == unskipped(s.units, skip),
        forall|i: int|
            0 <= i < s.requests.len() ==> (#[trigger] s.requests[i]).unit_hash
                == s.requests[i].plan.info().unit_hash,
        s.progress.uploaded_units == s.progress.total_units,
        s.requests.len() == s.progress.total_units,
{
    assert(s.units.take(s.next as int) =~= s.units);
}

/// What is saved of a unit names exactly the contents that are uploaded for it: the
/// keys of its stored files are those of the uploads, in order.
pub proof fn law_saved_outputs_are_uploaded(files: Seq<SavedFile>, i: int)
    requires
        0 <= i < files.len(),
    ensures
        stored_files(files)[i].object_key == file_uploads(files)[i].0,
        file_uploads(files)[i].1 == files[i].contents@,
{
}

/// Whether contents are those of a unit of the given kind.
pub open spec fn is_of_kind(unit: workspace::UnitPlanView, contents: UnitContents) -> bool {
    match (unit, contents) {
        (workspace::UnitPlanView::LibraryCrate(_), UnitContents::LibraryCrate { .. }) => true,
        (
            workspace::UnitPlanView::BuildScriptCompilation(_),
            UnitContents::BuildScriptCompilation { .. },
        ) => true,
        (
            workspace::UnitPlanView::BuildScriptExecution(_),
            UnitContents::BuildScriptExecution { .. },
        ) => true,
        _ => false,
    }
}

/// The fingerprint that was read of a unit.
pub open spec fn fingerprint_of(contents: UnitContents) -> fingerprint::FingerprintView {
    match contents {
        UnitContents::LibraryCrate { fingerprint, .. } => fingerprint@,
        UnitContents::BuildScriptCompilation { fingerprint, .. } => fingerprint@,
        UnitContents::BuildScriptExecution { fingerprint, .. } => fingerprint@,
    }
}

/// What is restored of a unit, on any machine, is what was saved of it: the files that
/// are restored have the keys under which the contents were uploaded, one for one, and
/// the fingerprint is the one that was read, as it is saved.
pub proof fn law_saved_units_are_restored(
    here: Workspace,
    plan: workspace::UnitPlanView,
    there: Workspace,
    unit: workspace::UnitPlanView,
    contents: UnitContents,
    known: Map<u64, fingerprint::FingerprintView>,
    mtime: u64,
)
    requires
        is_of_kind(unit, contents),
    ensures
        ({
            let saved = portable_of(here, plan, contents, known);
            let files = restore::unit_files(there, unit, saved, mtime);
            &&& files != Err::<restore::UnitFilesView, restore::RestoreError>(
                restore::RestoreError::UnitTypeMismatch,
            )
            &&& files matches Ok(f) ==> {
                &&& f.files.len() == uploads_of(contents).len()
                &&& forall|i: int|
                    0 <= i < f.files.len() ==> (#[trigger] f.files[i]).key == uploads_of(
                        contents,
                    )[i].0
            }
            &&& saved.fingerprint() == saved_fingerprint(
                here,
                plan,
                fingerprint_of(contents),
                known,
            )
        }),
{
}

/// The path that a fingerprint is saved with does not depend on where `$CARGO_HOME` lies.
pub proof fn law_saved_paths_are_portable(
    here: Workspace,
    there: Workspace,
    unit_here: workspace::UnitPlanView,
    unit_there: workspace::UnitPlanView,
    rel: Seq<char>,
)
    requires
        path::is_clean(rel),
        unit_here.src_path() == Some(path::join(here.cargo_home@, rel)),
        unit_there.src_path() == Some(path::join(there.cargo_home@, rel)),
    ensures
        saved_path(here, unit_here) == Some(fingerprint::path_hash(rel)),
        saved_path(there, unit_there) == saved_path(here, unit_here),
{
    path::lemma_below_join(here.cargo_home@, rel);
    path::lemma_below_join(there.cargo_home@, rel);
}

/// The list of files of a unit that can be many: what the compiler wrote of a library, or
/// what a build script put into its output directory.
pub open spec fn listed_files(contents: UnitContents) -> Seq<SavedFile> {
    match contents {
        UnitContents::LibraryCrate { output_files, .. } => output_files@,
        UnitContents::BuildScriptExecution { out_dir_files, .. } => out_dir_files@,
        UnitContents::BuildScriptCompilation { .. } => Seq::empty(),
    }
}

/// Files of a unit that were read on a machine, saved, and restored there go to the paths
/// that they were read from, are executable if they were, and get what was uploaded under
/// the key of what was read.
pub proof fn law_files_return_to_their_places(
    ws: Workspace,
    unit: workspace::UnitPlanView,
    contents: UnitContents,
    paths: Seq<Seq<char>>,
    read: Seq<library_crate::FileContents>,
    known: Map<u64, fingerprint::FingerprintView>,
    mtime: u64,
    i: int,
)
    requires
        is_of_kind(unit, contents),
        library_crate::are_saved_files(
            ws.roots(unit.info().target_arch),
            listed_files(contents),
            paths,
            read,
        ),
        0 <= i < paths.len(),
        path::is_abs(paths[i]),
        qualified::is_stable(ws.roots(unit.info().target_arch), Set::empty(), paths[i]),
    ensures
        uploads_of(contents)[i] == keyed(read[i].contents@),
        restore::unit_files(ws, unit, portable_of(ws, unit, contents, known), mtime) matches Ok(f)
            ==> f.files[i] == (restore::FileRestoreKeyView {
            unit_hash: unit.info().unit_hash,
            key: keyed(read[i].contents@).0,
            path: paths[i],
            kind: RestoredFileKind::Output { executable: read[i].executable },
            link: None,
            mtime,
        }),
{
    let roots = ws.roots(unit.info().target_arch);
    qualified::law_stable_path_round_trips(roots, Set::empty(), paths[i]);
    let files = listed_files(contents);
    assert(files[i].path@ == qualified::qualify_abs(roots, paths[i]));
}

/// The platform that a unit was built for.
pub open spec fn arch_of(ws: Workspace, unit: workspace::UnitPlanView) -> Seq<char> {
    match unit.info().target_arch {
        Some(triple) => triple,
        None => ws.host_arch@,
    }
}

/// The version of glibc that a unit was built against: that of the host, if the
/// unit was built for the host and runs against glibc.
pub open spec fn glibc_of(
    ws: Workspace,
    unit: workspace::UnitPlanView,
    host: Option<GLIBCVersion>,
) -> Option<GLIBCVersion> {
    if rustc::triple_uses_glibc(arch_of(ws, unit)) && arch_of(ws, unit) == ws.host_arch@ {
        host
    } else {
        None
    }
}

/// The uploads whose contents were not restored from the cache.
pub open spec fn new_uploads(
    uploads: Seq<(Seq<u8>, Seq<u8>)>,
    restored: Set<Seq<char>>,
) -> Seq<(Seq<u8>, Seq<u8>)>
    decreases uploads.len(),
{
    if uploads.len() == 0 {
        Seq::empty()
    } else {
        let before = new_uploads(uploads.drop_last(), restored);
        if restored.contains(hash::hex_text(uploads.last().0)) {
            before
        } else {
            before.push(uploads.last())
        }
    }
}

/// What is put into the local cache for a unit.
#[derive(Debug)]
pub struct LocalSave {
    /// The contents to store.
    pub stores: Vec<Upload>,
    pub unit_hash: UnitHash,
    pub unit: SavedUnit,
    /// The plan that the unit was built by.
    pub plan: UnitPlan,
    /// The platform that the unit was built for.
    pub target: String,
    /// The version of glibc that the unit was built against.
    pub glibc: Option<GLIBCVersion>,
}

impl Workspace {
    /// The platform that a unit was built for.
    pub fn unit_arch(&self, unit: &UnitPlan) -> (r: RustcTargetPlatform)
        ensures
            r@ == arch_of(*self, unit@),
    {
        match &unit.info().target_arch {
            RustcTarget::Specified(arch) => arch.clone(),
            RustcTarget::ImplicitHost => self.host_arch.clone(),
        }
    }

    /// The version of glibc that a unit was built against.
    pub fn unit_glibc(&self, unit: &UnitPlan, host: &Option<GLIBCVersion>) -> (r: Option<
        GLIBCVersion,
    >)
        ensures
            r == glibc_of(*self, unit@, *host),
    {
        let arch = self.unit_arch(unit);
        if arch.uses_glibc() && arch.same(&self.host_arch) {
            *host
        } else {
            None
        }
    }
}

/// What is put into the local cache for a unit. `None` for a unit that was restored
/// from the cache.
pub fn save_locally(
    ws: &Workspace,
    unit: &UnitPlan,
    skip: &Restored,
    host_glibc: &Option<GLIBCVersion>,
    fingerprints: &mut SavedFingerprints,
    contents: UnitContents,
) -> (r: Option<LocalSave>)
    ensures
        final(fingerprints)@ == old(fingerprints)@.insert(
            fingerprint::hash_of(saved_of(contents).fingerprint()),
            portable_of(*ws, unit@, contents, old(fingerprints)@).fingerprint(),
        ),
        match r {
            None => skip.unit_hashes().contains(unit@.info().unit_hash),
            Some(save) => {
                &&& !skip.unit_hashes().contains(unit@.info().unit_hash)
                &&& upload_views(save.stores@) == new_uploads(
                    uploads_of(contents),
                    skip.file_keys(),
                )
                &&& save.unit_hash@ == unit@.info().unit_hash
                &&& save.unit@ == portable_of(*ws, unit@, contents, old(fingerprints)@)
                &&& save.plan@ == unit@
                &&& save.target@ == arch_of(*ws, unit@)
                &&& save.glibc == glibc_of(*ws, unit@, *host_glibc)
            },
        },
{
    let info = unit.info();
    let (uploads, read) = prepare_unit(contents);
    let saved = fingerprints.enter(ws, unit, read.fingerprint().clone());
    if skip.has_unit(&info.unit_hash) {
        return None;
    }
    let ghost files = uploads@;
    let ghost all = upload_views(files);
    let n: usize = uploads.len();
    let mut rest: Vec<Upload> = uploads;
    let mut stores: Vec<Upload> = Vec::new();
    let mut i: usize = 0;
    assert(files.skip(0) =~= files);
    assert(upload_views(stores@) =~= new_uploads(all.take(0), skip.file_keys()));
    while i < n
        invariant
            i <= n,
            n == files.len(),
            all == upload_views(files),
            rest@ == files.skip(i as int),
            upload_views(stores@) == new_uploads(all.take(i as int), skip.file_keys()),
        decreases n - i,
    {
        let ghost before = upload_views(stores@);
        let u: Upload = rest.remove(0);
        proof {
            assert(u == files[i as int]);
            assert(rest@ =~= files.skip(i + 1));
            assert(all.take(i + 1).drop_last() =~= all.take(i as int));
            assert(all.take(i + 1).last() == upload_view(u));
        }
        if !skip.has_file(&u.key) {
            stores.push(u);
            assert(upload_views(stores@) =~= before.push(upload_view(u)));
        }
        i += 1;
    }
    assert(all.take(n as int) =~= all);
    Some(
        LocalSave {
            stores,
            unit_hash: info.unit_hash.clone(),
            unit: read.with_fingerprint(saved),
            plan: unit.clone(),
            target: text::copy(ws.unit_arch(unit).as_str()),
            glibc: ws.unit_glibc(unit, host_glibc),
        },
    )
}

proof fn lemma_new_uploads_are_filtered(
    uploads: Seq<(Seq<u8>, Seq<u8>)>,
    restored: Set<Seq<char>>,
    keep: spec_fn((Seq<u8>, Seq<u8>)) -> bool,
)
    requires
        forall|u: (Seq<u8>, Seq<u8>)| #[trigger]
            keep(u) == !restored.contains(hash::hex_text(u.0)),
    ensures
        new_uploads(uploads, restored) == uploads.filter(keep),
    decreases uploads.len(),
{
    reveal(Seq::filter);
    if uploads.len() > 0 {
        lemma_new_uploads_are_filtered(uploads.drop_last(), restored, keep);
        assert(keep(uploads.last()) == !restored.contains(hash::hex_text(uploads.last().0)));
    }
}

/// What is stored of a unit are all its contents, in order, but for those that were
/// restored from the cache.
pub proof fn law_restored_contents_are_not_stored_again(
    uploads: Seq<(Seq<u8>, Seq<u8>)>,
    restored: Set<Seq<char>>,
)
    ensures
        new_uploads(uploads, restored) == uploads.filter(
            |u: (Seq<u8>, Seq<u8>)| !restored.contains(hash::hex_text(u.0)),
        ),
{
    lemma_new_uploads_are_filtered(
        uploads,
        restored,
        |u: (Seq<u8>, Seq<u8>)| !restored.contains(hash::hex_text(u.0)),
    );
}

proof fn lemma_unskipped_is_filtered(
    units: Seq<workspace::UnitPlanView>,
    skip: Set<Seq<char>>,
    keep: spec_fn(workspace::UnitPlanView) -> bool,
)
    requires
        forall|u: workspace::UnitPlanView| #[trigger] keep(u) == !skip.contains(u.info().unit_hash),
    ensures
        unskipped(units, skip) == units.filter(keep),
    decreases units.len(),
{
    reveal(Seq::filter);
    if units.len() > 0 {
        lemma_unskipped_is_filtered(units.drop_last(), skip, keep);
        assert(keep(units.last()) == !skip.contains(units.last().info().unit_hash));
    }
}

/// The units that are saved are all units, in order, but for those that were restored from
/// the cache.
pub proof fn law_restored_units_are_not_saved_again(
    units: Seq<workspace::UnitPlanView>,
    skip: Set<Seq<char>>,
)
    ensures
        unskipped(units, skip) == units.filter(
            |u: workspace::UnitPlanView| !skip.contains(u.info().unit_hash),
        ),
{
    lemma_unskipped_is_filtered(
        units,
        skip,
        |u: workspace::UnitPlanView| !skip.contains(u.info().unit_hash),
    );
}

/// Bytes are counted once for each upload.
pub proof fn law_bytes_add_up(a: Seq<(Seq<u8>, Seq<u8>)>, b: Seq<(Seq<u8>, Seq<u8>)>)
    ensures
        total_bytes(Seq::<(Seq<u8>, Seq<u8>)>::empty()) == 0,
        total_bytes(a + b) == total_bytes(a) + total_bytes(b),
        a.len() == 1 ==> total_bytes(a) == a[0].1.len(),
    decreases b.len(),
{
    if b.len() == 0 {
        assert(a + b =~= a);
    } else {
        law_bytes_add_up(a, b.drop_last());
        assert((a + b).drop_last() =~= a + b.drop_last());
    }
    if a.len() == 1 {
        reveal_with_fuel(total_bytes, 2);
    }
}

/// A unit is built for the platform that it carries, or else for the host. It needs the
/// glibc of the host exactly where that is the platform of the host and runs against
/// glibc.
pub proof fn law_platforms_of_saved_units(
    ws: Workspace,
    unit: workspace::UnitPlanView,
    host: Option<GLIBCVersion>,
)
    ensures
        unit.info().target_arch is None ==> arch_of(ws, unit) == ws.host_arch@,
        unit.info().target_arch matches Some(triple) ==> arch_of(ws, unit) == triple,
        ({
            let native = unit.info().target_arch is None || unit.info().target_arch == Some(
                ws.host_arch@,
            );
            &&& native && rustc::triple_uses_glibc(ws.host_arch@) ==> glibc_of(ws, unit, host)
                == host
            &&& !(native && rustc::triple_uses_glibc(ws.host_arch@)) ==> glibc_of(ws, unit, host)
                is None
        }),
{
}

/// The fingerprint of a unit is saved without what depends on the machine. Its path is
/// that of the source file as seen from `$CARGO_HOME`, if it has a path and the file lies
/// there, and else stays. The fingerprint of every dependency that was entered has the hash
/// of the one that is saved for it, and every other keeps its hash. All other fields stay,
/// and the hash that it carries is the one that its fields give.
pub proof fn law_saved_fingerprints_do_not_depend_on_the_machine(
    ws: Workspace,
    unit: workspace::UnitPlanView,
    f: fingerprint::FingerprintView,
    known: Map<u64, fingerprint::FingerprintView>,
)
    ensures
        ({
            let g = saved_fingerprint(ws, unit, f, known);
            let src = match unit {
                workspace::UnitPlanView::LibraryCrate(plan) => Some(plan.src_path),
                workspace::UnitPlanView::BuildScriptCompilation(plan) => Some(plan.src_path),
                workspace::UnitPlanView::BuildScriptExecution(_) => None,
            };
            &&& f.path != 0 && src is Some && path::below(ws.cargo_home@, src->0) is Some ==> g.path
                == fingerprint::path_hash(path::below(ws.cargo_home@, src->0)->0)
            &&& f.path == 0 || src is None || path::below(ws.cargo_home@, src->0) is None ==> g.path
                == f.path
            &&& g == (fingerprint::FingerprintView {
                path: g.path,
                deps: g.deps,
                memoized_hash: g.memoized_hash,
                ..f
            })
            &&& g.memoized_hash == Some(
                fingerprint::hash_of(fingerprint::FingerprintView { memoized_hash: None, ..g }),
            )
            &&& g.deps.len() == f.deps.len()
            &&& forall|k: int|
                0 <= k < f.deps.len() ==> {
                    let h = fingerprint::hash_of(f.deps[k].fingerprint);
                    &&& (#[trigger] g.deps[k]) == (fingerprint::DepFingerprintView {
                        fingerprint: g.deps[k].fingerprint,
                        ..f.deps[k]
                    })
                    &&& known.contains_key(h) ==> fingerprint::hash_of(g.deps[k].fingerprint)
                        == fingerprint::hash_of(known[h])
                    &&& !known.contains_key(h) ==> fingerprint::hash_of(g.deps[k].fingerprint) == h
                }
        }),
{
    let g = saved_fingerprint(ws, unit, f, known);
    let d = fingerprint::detached(f, saved_path(ws, unit), known);
    fingerprint::law_asking_for_the_hash_keeps_it(d);
    fingerprint::lemma_memoized_deps(d.deps);
    assert forall|k: int| 0 <= k < f.deps.len() implies {
        let h = fingerprint::hash_of(f.deps[k].fingerprint);
        &&& (#[trigger] g.deps[k]) == (fingerprint::DepFingerprintView {
            fingerprint: g.deps[k].fingerprint,
            ..f.deps[k]
        })
        &&& known.contains_key(h) ==> fingerprint::hash_of(g.deps[k].fingerprint)
            == fingerprint::hash_of(known[h])
        &&& !known.contains_key(h) ==> fingerprint::hash_of(g.deps[k].fingerprint) == h
    } by {
        assert(g.deps[k] == fingerprint::memoized_deps(d.deps)[k]);
        fingerprint::law_asking_for_the_hash_keeps_it(d.deps[k].fingerprint);
    }
}

/// A unit whose contents were read is uploaded: one more unit, and as many more files and
/// bytes as it has contents. It is requested under its own hash, with what was read of it
/// and the fingerprint that is saved for it. From then on that is known for the hash that
/// the unit has on this machine.
pub proof fn law_uploaded_units_are_counted_and_requested(
    ws: Workspace,
    s: SaveSessionView,
    skip: Set<Seq<char>>,
    local: Option<fingerprint::FingerprintView>,
    contents: UnitContents,
)
    requires
        s.is_consistent(),
        s.next < s.units.len(),
        !skip.contains(s.units[s.next as int].info().unit_hash),
        s.progress.uploaded_files + uploads_of(contents).len() <= u64::MAX,
        s.progress.uploaded_bytes + total_bytes(uploads_of(contents)) <= u64::MAX,
    ensures
        ({
            let unit = s.units[s.next as int];
            let read = match contents {
                UnitContents::LibraryCrate { fingerprint, .. } => fingerprint@,
                UnitContents::BuildScriptCompilation { fingerprint, .. } => fingerprint@,
                UnitContents::BuildScriptExecution { fingerprint, .. } => fingerprint@,
            };
            let saved = saved_fingerprint(ws, unit, read, s.known);
            let t = s.after_step(ws, skip, local, Some(contents));
            &&& t.next == s.next + 1
            &&& t.units == s.units
            &&& t.progress.uploaded_units == s.progress.uploaded_units + 1
            &&& t.progress.total_units == s.progress.total_units
            &&& t.progress.uploaded_files == s.progress.uploaded_files + uploads_of(contents).len()
            &&& t.progress.uploaded_bytes == s.progress.uploaded_bytes + total_bytes(
                uploads_of(contents),
            )
            &&& t.requests.len() == s.requests.len() + 1
            &&& t.requests.drop_last() == s.requests
            &&& t.requests.last().unit_hash == unit.info().unit_hash
            &&& t.requests.last().plan == unit
            &&& t.requests.last().unit.fingerprint() == saved
            &&& t.requests.last().unit == saved_of(contents).with_fingerprint(saved)
            &&& t.known == s.known.insert(fingerprint::hash_of(read), saved)
        }),
{
    let t = s.after_step(ws, skip, local, Some(contents));
    assert(t.requests.drop_last() =~= s.requests);
}

/// A unit that was restored from the cache is not saved again, and there is one unit less
/// in all. If its fingerprint on disk was read, what would be saved of it is known for its
/// hash from then on, so that units that depend on it are saved as they would be after it.
pub proof fn law_skipped_units_are_known(
    ws: Workspace,
    s: SaveSessionView,
    skip: Set<Seq<char>>,
    local: Option<fingerprint::FingerprintView>,
    contents: Option<UnitContents>,
)
    requires
        s.is_consistent(),
        s.next < s.units.len(),
        skip.contains(s.units[s.next as int].info().unit_hash),
    ensures
        ({
            let unit = s.units[s.next as int];
            let t = s.after_step(ws, skip, local, contents);
            &&& t.next == s.next + 1
            &&& t.units == s.units
            &&& t.requests == s.requests
            &&& t.progress.total_units == s.progress.total_units - 1
            &&& t.progress.uploaded_units == s.progress.uploaded_units
            &&& t.progress.uploaded_files == s.progress.uploaded_files
            &&& t.progress.uploaded_bytes == s.progress.uploaded_bytes
            &&& local is None ==> t.known == s.known
            &&& local matches Some(f) ==> t.known == s.known.insert(
                fingerprint::hash_of(f),
                saved_fingerprint(ws, unit, f, s.known),
            )
        }),
{
}

/// Without the contents of the next unit, or without room to count them, and after the
/// last unit, nothing is done.
pub proof fn law_other_steps_save_nothing(
    ws: Workspace,
    s: SaveSessionView,
    skip: Set<Seq<char>>,
    local: Option<fingerprint::FingerprintView>,
    contents: Option<UnitContents>,
)
    ensures
        s.next >= s.units.len() ==> s.after_step(ws, skip, local, contents) == s,
        s.next < s.units.len() && !skip.contains(s.units[s.next as int].info().unit_hash) && (
        contents is None || s.progress.uploaded_files + uploads_of(contents->0).len() > u64::MAX
            || s.progress.uploaded_bytes + total_bytes(uploads_of(contents->0)) > u64::MAX)
            ==> s.after_step(ws, skip, local, contents) == s,
{
}

} // verus!
