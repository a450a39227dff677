//! The cache on the local disk: content in files, and what units there are in a
//! database.

use vstd::prelude::*;
use vstd::string::*;

use crate::cache::local::cas::LocalCas;
use crate::hash::Key;
use crate::path;
use crate::text;
use crate::vars;

pub mod cas;
pub mod metadata;

verus! {

/// The cache on the local disk.
#[derive(Debug)]
pub struct LocalBackend {
    cas: LocalCas,
    metadata_path: String,
}

/// No directory is known in which the cache could be.
#[derive(Debug, Clone, Copy, PartialEq, Eq, Structural)]
pub struct NoCacheDir;

/// The content of a key cannot be read, for the given reason.
#[derive(Debug)]
pub struct BulkReadError(pub String);

impl LocalBackend {
    /// Where the content is.
    pub closed spec fn cas_root(&self) -> Seq<char> {
        self.cas@
    }

    /// Where the database is.
    pub closed spec fn database(&self) -> Seq<char> {
        self.metadata_path@
    }

    /// The cache in a directory.
    pub fn open(cache_dir: &str) -> (r: LocalBackend)
        ensures
            r.cas_root() == path::join(cache_dir@, "cas"@),
            r.database() == path::join(cache_dir@, "metadata.db"@),
    {
        let cas_dir = path::join_text(cache_dir, "cas");
        LocalBackend {
            cas: LocalCas::new(cas_dir.as_str()),
            metadata_path: path::join_text(cache_dir, "metadata.db"),
        }
    }

    /// The content.
    pub fn cas(&self) -> (r: &LocalCas)
        ensures
            r@ == self.cas_root(),
    {
        &self.cas
    }

    /// Where the database is.
    pub fn metadata_path(&self) -> (r: &str)
        ensures
            r@ == self.database(),
    {
        self.metadata_path.as_str()
    }

    /// What is handed out for a key, of many, given what was read for it. Nothing is
    /// handed out for a key without content.
    pub fn bulk_entry(key: Key, read: Result<Option<Vec<u8>>, String>) -> (r: Option<
        Result<(Key, Vec<u8>), BulkReadError>,
    >)
        ensures
            match read {
                Ok(Some(content)) => r == Some(
                    Ok::<(Key, Vec<u8>), BulkReadError>((key, content)),
                ),
                Ok(None) => r is None,
                Err(e) => r == Some(Err::<(Key, Vec<u8>), BulkReadError>(BulkReadError(e))),
            },
    {
        match read {
            Ok(Some(content)) => Some(Ok((key, content))),
            Ok(None) => None,
            Err(e) => Some(Err(BulkReadError(e))),
        }
    }
}

/// The directory that the cache is in, where one is known.
pub open spec fn cache_dir_of(env: Seq<(String, String)>, platform: Option<String>) -> Option<
    Seq<char>,
> {
    match (vars::value_of(env, "HURRY_CACHE_DIR"@), platform) {
        (Some(dir), _) => Some(dir),
        (None, Some(dir)) => Some(dir@),
        (None, None) => None,
    }
}

/// The directory that the cache is in: that of the variable `HURRY_CACHE_DIR` where it
/// is set, and that of the platform where it is not.
pub fn default_cache_dir(env: &Vec<(String, String)>, platform: Option<String>) -> (r: Result<
    String,
    NoCacheDir,
>)
    ensures
        match r {
            Ok(dir) => cache_dir_of(env@, platform) == Some(dir@),
            Err(_) => cache_dir_of(env@, platform) is None,
        },
        match (vars::value_of(env@, "HURRY_CACHE_DIR"@), platform) {
            (Some(dir), _) => r matches Ok(d) && d@ == dir,
            (None, Some(dir)) => r matches Ok(d) && d@ == dir@,
            (None, None) => r is Err,
        },
{
    if let Some(dir) = vars::get(env, "HURRY_CACHE_DIR") {
        return Ok(dir);
    }
    match platform {
        Some(dir) => Ok(dir),
        None => Err(NoCacheDir),
    }
}

/// A directory that is set for the cache counts before that of the platform. Without
/// either there is none.
pub proof fn law_set_directory_counts_first(env: Seq<(String, String)>, platform: Option<String>)
    ensures
        vars::value_of(env, "HURRY_CACHE_DIR"@) is Some ==> cache_dir_of(env, platform)
            == vars::value_of(env, "HURRY_CACHE_DIR"@),
        vars::value_of(env, "HURRY_CACHE_DIR"@) is None && platform is Some ==> cache_dir_of(
            env,
            platform,
        ) == Some(platform->0@),
        vars::value_of(env, "HURRY_CACHE_DIR"@) is None && platform is None ==> cache_dir_of(
            env,
            platform,
        ) is None,
{
}

} // verus!
