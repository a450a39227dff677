//! The cache of Cargo's build artifacts: what is stored of a unit, and how units
//! are saved and restored.

use vstd::prelude::*;

use crate::cargo::fingerprint;
use crate::cargo::fingerprint::Fingerprint;
use crate::cargo::path;
use crate::cargo::path::QualifiedPath;
use crate::hash::Key;

pub mod places;
pub mod restore;
pub mod save;
pub mod steps;
pub mod transfer;

verus! {

/// A file of a unit, with its contents.
#[derive(Debug)]
pub struct SavedFile {
    pub path: QualifiedPath,
    pub contents: Vec<u8>,
    pub executable: bool,
}

/// A file of a unit whose contents are stored under their key.
#[derive(Debug)]
pub struct StoredFile {
    pub object_key: Key,
    pub executable: bool,
    pub path: QualifiedPath,
}

/// A [`StoredFile`] in terms of characters and bytes.
pub struct StoredFileView {
    pub object_key: Seq<u8>,
    pub executable: bool,
    pub path: path::QualifiedPathView,
}

impl View for StoredFile {
    type V = StoredFileView;

    open spec fn view(&self) -> StoredFileView {
        StoredFileView {
            object_key: self.object_key@,
            executable: self.executable,
            path: self.path@,
        }
    }
}

/// The views of a sequence of stored files.
pub open spec fn stored_views(v: Seq<StoredFile>) -> Seq<StoredFileView> {
    Seq::new(v.len(), |i: int| v[i]@)
}

/// What is stored of a unit.
#[derive(Debug)]
pub enum SavedUnit {
    /// What is stored of a unit that compiles a library crate.
    LibraryCrate {
        fingerprint: Fingerprint,
        output_files: Vec<StoredFile>,
        dep_info_file: Key,
        encoded_dep_info_file: Key,
    },
    /// What is stored of a unit that compiles a build script.
    BuildScriptCompilation {
        fingerprint: Fingerprint,
        compiled_program: Key,
        dep_info_file: Key,
        encoded_dep_info_file: Key,
    },
    /// What is stored of a unit that runs a build script.
    BuildScriptExecution {
        fingerprint: Fingerprint,
        out_dir_files: Vec<StoredFile>,
        stdout: Key,
        stderr: Key,
    },
}

/// A [`SavedUnit`] in terms of characters and bytes.
#[verifier::ext_equal]
pub enum SavedUnitView {
    LibraryCrate {
        fingerprint: fingerprint::FingerprintView,
        output_files: Seq<StoredFileView>,
        dep_info_file: Seq<u8>,
        encoded_dep_info_file: Seq<u8>,
    },
    BuildScriptCompilation {
        fingerprint: fingerprint::FingerprintView,
        compiled_program: Seq<u8>,
        dep_info_file: Seq<u8>,
        encoded_dep_info_file: Seq<u8>,
    },
    BuildScriptExecution {
        fingerprint: fingerprint::FingerprintView,
        out_dir_files: Seq<StoredFileView>,
        stdout: Seq<u8>,
        stderr: Seq<u8>,
    },
}

impl View for SavedUnit {
    type V = SavedUnitView;

    open spec fn view(&self) -> SavedUnitView {
        match self {
            SavedUnit::LibraryCrate {
                fingerprint,
                output_files,
                dep_info_file,
                encoded_dep_info_file,
            } => SavedUnitView::LibraryCrate {
                fingerprint: fingerprint@,
                output_files: stored_views(output_files@),
                dep_info_file: dep_info_file@,
                encoded_dep_info_file: encoded_dep_info_file@,
            },
            SavedUnit::BuildScriptCompilation {
                fingerprint,
                compiled_program,
                dep_info_file,
                encoded_dep_info_file,
            } => SavedUnitView::BuildScriptCompilation {
                fingerprint: fingerprint@,
                compiled_program: compiled_program@,
                dep_info_file: dep_info_file@,
                encoded_dep_info_file: encoded_dep_info_file@,
            },
            SavedUnit::BuildScriptExecution { fingerprint, out_dir_files, stdout, stderr } => {
                SavedUnitView::BuildScriptExecution {
                    fingerprint: fingerprint@,
                    out_dir_files: stored_views(out_dir_files@),
                    stdout: stdout@,
                    stderr: stderr@,
                }
            },
        }
    }
}

impl SavedUnitView {
    /// The fingerprint that the unit was saved with.
    pub open spec fn fingerprint(self) -> fingerprint::FingerprintView {
        match self {
            SavedUnitView::LibraryCrate { fingerprint, .. } => fingerprint,
            SavedUnitView::BuildScriptCompilation { fingerprint, .. } => fingerprint,
            SavedUnitView::BuildScriptExecution { fingerprint, .. } => fingerprint,
        }
    }

    /// The unit with another fingerprint.
    pub open spec fn with_fingerprint(self, f: fingerprint::FingerprintView) -> SavedUnitView {
        match self {
            SavedUnitView::LibraryCrate {
                output_files,
                dep_info_file,
                encoded_dep_info_file,
                ..
            } => SavedUnitView::LibraryCrate {
                fingerprint: f,
                output_files,
                dep_info_file,
                encoded_dep_info_file,
            },
            SavedUnitView::BuildScriptCompilation {
                compiled_program,
                dep_info_file,
                encoded_dep_info_file,
                ..
            } => SavedUnitView::BuildScriptCompilation {
                fingerprint: f,
                compiled_program,
                dep_info_file,
                encoded_dep_info_file,
            },
            SavedUnitView::BuildScriptExecution { out_dir_files, stdout, stderr, .. } => {
                SavedUnitView::BuildScriptExecution { fingerprint: f, out_dir_files, stdout, stderr }
            },
        }
    }
}

impl SavedUnit {
    /// The unit with another fingerprint.
    pub fn with_fingerprint(self, f: Fingerprint) -> (r: SavedUnit)
        ensures
            r@ == self@.with_fingerprint(f@),
    {
        match self {
            SavedUnit::LibraryCrate {
                output_files,
                dep_info_file,
                encoded_dep_info_file,
                ..
            } => SavedUnit::LibraryCrate {
                fingerprint: f,
                output_files,
                dep_info_file,
                encoded_dep_info_file,
            },
            SavedUnit::BuildScriptCompilation {
                compiled_program,
                dep_info_file,
                encoded_dep_info_file,
                ..
            } => SavedUnit::BuildScriptCompilation {
                fingerprint: f,
                compiled_program,
                dep_info_file,
                encoded_dep_info_file,
            },
            SavedUnit::BuildScriptExecution { out_dir_files, stdout, stderr, .. } => {
                SavedUnit::BuildScriptExecution { fingerprint: f, out_dir_files, stdout, stderr }
            },
        }
    }

    /// The fingerprint that the unit was saved with.
    pub fn fingerprint(&self) -> (r: &Fingerprint)
        ensures
            r@ == self@.fingerprint(),
    {
        match self {
            SavedUnit::LibraryCrate { fingerprint, .. } => fingerprint,
            SavedUnit::BuildScriptCompilation { fingerprint, .. } => fingerprint,
            SavedUnit::BuildScriptExecution { fingerprint, .. } => fingerprint,
        }
    }
}

} // verus!
