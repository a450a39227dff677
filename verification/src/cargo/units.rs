//! The kinds of units, and the files that belong to each.

use vstd::prelude::*;

use crate::cargo::dep_info::DepInfoError;
use crate::cargo::fingerprint;
use crate::cargo::fingerprint::{Fingerprint, RewriteError};
use crate::path::{AbsDirPath, AbsFilePath, PathError, RelDirPath, RelFilePath};

pub mod build_script_compilation;
pub mod build_script_execution;
pub mod library_crate;

verus! {

/// Why a file of a unit cannot be named.
#[derive(Debug, Clone, Copy, PartialEq, Eq, Structural)]
pub enum UnitFileError {
    /// A package or crate name gives an absolute path.
    NotRelative,
    /// The source file of a build script has no name.
    NoSourceName,
    /// The source file of a build script has no `.rs` extension.
    NoRustExtension,
}

/// The text of a file, where it can be named.
pub open spec fn file_view(r: Result<RelFilePath, UnitFileError>) -> Result<
    Seq<char>,
    UnitFileError,
> {
    match r {
        Ok(f) => Ok(f@),
        Err(e) => Err(e),
    }
}

/// The text of a directory, where it can be named.
pub open spec fn dir_view(r: Result<RelDirPath, UnitFileError>) -> Result<
    Seq<char>,
    UnitFileError,
> {
    match r {
        Ok(d) => Ok(d@),
        Err(e) => Err(e),
    }
}

pub(crate) fn file_error(r: Result<RelFilePath, PathError>) -> (s: Result<
    RelFilePath,
    UnitFileError,
>)
    ensures
        match r {
            Ok(f) => s == Ok::<RelFilePath, UnitFileError>(f),
            Err(_) => s == Err::<RelFilePath, UnitFileError>(UnitFileError::NotRelative),
        },
{
    match r {
        Ok(f) => Ok(f),
        Err(_) => Err(UnitFileError::NotRelative),
    }
}

/// The files whose modification times are set together.
#[derive(Debug)]
pub struct TouchPlan {
    /// Files that are known by name.
    pub files: Vec<AbsFilePath>,
    /// A directory of which every file is touched.
    pub walk: Option<AbsDirPath>,
}

/// The views of a sequence of absolute files.
pub open spec fn abs_views(v: Seq<AbsFilePath>) -> Seq<Seq<char>> {
    Seq::new(v.len(), |i: int| v[i]@)
}

/// A copy of a list of absolute files.
pub fn copy_files(list: &Vec<AbsFilePath>) -> (r: Vec<AbsFilePath>)
    ensures
        r@ == list@,
{
    let mut r: Vec<AbsFilePath> = Vec::new();
    let mut i: usize = 0;
    while i < list.len()
        invariant
            i <= list.len(),
            r@ == list@.take(i as int),
        decreases list.len() - i,
    {
        r.push(list[i].clone());
        assert(r@ =~= list@.take(i + 1));
        i += 1;
    }
    assert(r@ =~= list@);
    r
}

/// Why the files of a unit that were read do not belong together.
#[derive(Debug, Clone, Copy, PartialEq, Eq, Structural)]
pub enum ReadError {
    /// The dep-info file cannot be parsed.
    DepInfo(DepInfoError),
    /// The hash of the fingerprint is not the one in its hash file.
    FingerprintHashMismatch,
}

/// Why a unit cannot be put back.
#[derive(Debug, Clone, Copy, PartialEq, Eq, Structural)]
pub enum UnitRestoreError {
    /// A file of the unit cannot be named.
    UnitFile(UnitFileError),
    /// A file has no absolute path.
    RelativeFile,
    /// The fingerprint could not be rewritten.
    Rewrite(RewriteError),
}

/// Something that is written to put a unit back.
#[derive(Debug)]
pub enum UnitWrite {
    /// A file with its contents, which is made executable or not where that is said.
    File { path: AbsFilePath, contents: Vec<u8>, executable: Option<bool> },
    /// A file with its text.
    Text { path: AbsFilePath, text: String },
    /// A hard link to a file.
    Link { file: AbsFilePath, link: AbsFilePath },
    /// A fingerprint, as JSON.
    Json { path: AbsFilePath, fingerprint: Fingerprint },
}

/// A [`UnitWrite`] in terms of characters and bytes.
pub enum UnitWriteView {
    File { path: Seq<char>, contents: Seq<u8>, executable: Option<bool> },
    Text { path: Seq<char>, text: Seq<char> },
    Link { file: Seq<char>, link: Seq<char> },
    Json { path: Seq<char>, fingerprint: fingerprint::FingerprintView },
}

impl View for UnitWrite {
    type V = UnitWriteView;

    open spec fn view(&self) -> UnitWriteView {
        match self {
            UnitWrite::File { path, contents, executable } => UnitWriteView::File {
                path: path@,
                contents: contents@,
                executable: *executable,
            },
            UnitWrite::Text { path, text } => UnitWriteView::Text { path: path@, text: text@ },
            UnitWrite::Link { file, link } => UnitWriteView::Link { file: file@, link: link@ },
            UnitWrite::Json { path, fingerprint } => UnitWriteView::Json {
                path: path@,
                fingerprint: fingerprint@,
            },
        }
    }
}

/// The views of a sequence of writes.
pub open spec fn write_views(v: Seq<UnitWrite>) -> Seq<UnitWriteView> {
    Seq::new(v.len(), |i: int| v[i]@)
}

} // verus!
