//! A cache and a content-addressed store in directories of the local disk.

use vstd::prelude::*;
use vstd::string::*;

use crate::hash;
use crate::hash::Key;
use crate::path;
use crate::path::{AbsDirPath, AbsFilePath, PathError, RelDirPath, RelFilePath};

verus! {

/// The state of a cache that others may change.
#[derive(Debug)]
pub struct Unlocked;

/// The state of a cache that no other may change.
#[derive(Debug)]
pub struct Locked;

/// A cache in a directory. Its records can be told only while it is locked.
#[derive(Debug)]
pub struct FsCache<State> {
    state: State,
    root: AbsDirPath,
}

impl<State> View for FsCache<State> {
    type V = Seq<char>;

    closed spec fn view(&self) -> Seq<char> {
        self.root@
    }
}

/// The file that is locked while a cache is in use.
pub open spec fn lockfile_of(root: Seq<char>) -> Seq<char> {
    path::join(root, ".hurry-lock"@)
}

/// The file of a record.
pub open spec fn record_of(root: Seq<char>, kind: Seq<char>, key: Seq<u8>) -> Seq<char> {
    path::join(path::join(root, kind), hash::hex_text(key))
}

impl<State> FsCache<State> {
    /// The file that is locked while the cache is in use.
    pub fn lockfile(&self) -> (r: AbsFilePath)
        ensures
            r@ == lockfile_of(self@),
    {
        proof {
            reveal_strlit(".hurry-lock");
        }
        self.root.join_file(&RelFilePath::known(".hurry-lock"))
    }
}

impl FsCache<Unlocked> {
    /// The cache below the directory for the user's caches.
    pub fn open_default(user_cache: &AbsDirPath) -> (r: Self)
        ensures
            r@ == path::join(user_cache@, "ws"@),
    {
        proof {
            reveal_strlit("ws");
        }
        Self::open_dir(&user_cache.join_dir(&RelDirPath::known("ws")))
    }

    /// The cache in a directory.
    pub fn open_dir(root: &AbsDirPath) -> (r: Self)
        ensures
            r@ == root@,
    {
        FsCache { state: Unlocked, root: root.clone() }
    }

    /// The cache once its lock file is locked.
    pub fn lock(self) -> (r: FsCache<Locked>)
        ensures
            r@ == self@,
    {
        FsCache { state: Locked, root: self.root }
    }
}

impl FsCache<Locked> {
    /// The cache once its lock file is unlocked.
    pub fn unlock(self) -> (r: FsCache<Unlocked>)
        ensures
            r@ == self@,
    {
        FsCache { state: Unlocked, root: self.root }
    }

    /// The file of a record of some kind.
    pub fn record_path(&self, kind: &str, key: &Key) -> (r: Result<AbsFilePath, PathError>)
        ensures
            match r {
                Ok(p) => !path::is_abs(kind@) && p@ == record_of(self@, kind@, key@),
                Err(e) => path::is_abs(kind@) && e == PathError::NotRelative,
            },
    {
        let dir = match self.root.try_join_dir(kind) {
            Ok(d) => d,
            Err(e) => {
                return Err(e);
            },
        };
        let name = key.to_hex();
        proof {
            lemma_hex_is_relative(key@);
        }
        Ok(dir.join_file(&RelFilePath::known(name.as_str())))
    }
}

/// The text of a key is the name of a file.
pub proof fn lemma_hex_is_relative(key: Seq<u8>)
    ensures
        !path::is_abs(hash::hex_text(key)),
        forall|i: int| 0 <= i < hash::hex_text(key).len() ==> #[trigger] hash::hex_text(key)[i] != '/',
{
    let s = hash::hex_text(key);
    assert forall|i: int| 0 <= i < s.len() implies #[trigger] s[i] != '/' by {
        let n = if i % 2 == 0 {
            key[i / 2] as int / 16
        } else {
            key[i / 2] as int % 16
        };
        assert(s[i] == hash::hex_digit(n));
    }
}

/// A content-addressed store: a directory of files, each named by the hash of what it
/// holds.
#[derive(Debug)]
pub struct FsCas {
    root: AbsDirPath,
}

impl View for FsCas {
    type V = Seq<char>;

    closed spec fn view(&self) -> Seq<char> {
        self.root@
    }
}

/// The file for some key.
pub open spec fn object_of(root: Seq<char>, key: Seq<u8>) -> Seq<char> {
    path::join(root, hash::hex_text(key))
}

impl FsCas {
    /// The store below the directory for the user's caches.
    pub fn open_default(user_cache: &AbsDirPath) -> (r: FsCas)
        ensures
            r@ == path::join(user_cache@, "cas"@),
    {
        proof {
            reveal_strlit("cas");
        }
        Self::open_dir(&user_cache.join_dir(&RelDirPath::known("cas")))
    }

    /// The store in a directory.
    pub fn open_dir(root: &AbsDirPath) -> (r: FsCas)
        ensures
            r@ == root@,
    {
        FsCas { root: root.clone() }
    }

    /// The key of some content and the file to write it to.
    pub fn store(&self, content: &Vec<u8>) -> (r: (Key, AbsFilePath))
        ensures
            r.0@ == hash::blake3_digest(content@),
            r.1@ == object_of(self@, r.0@),
    {
        let key = Key::from_buffer(content);
        let file = self.get(&key);
        (key, file)
    }

    /// The file to read the content of a key from.
    pub fn get(&self, key: &Key) -> (r: AbsFilePath)
        ensures
            r@ == object_of(self@, key@),
    {
        let name = key.to_hex();
        proof {
            lemma_hex_is_relative(key@);
        }
        self.root.join_file(&RelFilePath::known(name.as_str()))
    }
}

proof fn lemma_objects_differ(root: Seq<char>, a: Seq<u8>, b: Seq<u8>)
    requires
        a != b,
    ensures
        object_of(root, a) != object_of(root, b),
{
    if object_of(root, a) == object_of(root, b) {
        let n = object_of(root, a).len() - hash::hex_text(a).len();
        assert(object_of(root, a).skip(n) =~= hash::hex_text(a));
        assert(object_of(root, b).skip(n) =~= hash::hex_text(b));
        hash::lemma_hex_text_injective(a, b);
    }
}

/// What was stored is found under its key, and what was stored under other keys
/// stays as it was.
pub proof fn law_stored_content_is_found(
    root: Seq<char>,
    disk: Map<Seq<char>, Seq<u8>>,
    content: Seq<u8>,
    other: Seq<u8>,
)
    ensures
        ({
            let key = hash::blake3_digest(content);
            let after = disk.insert(object_of(root, key), content);
            &&& after.dom().contains(object_of(root, key))
            &&& after[object_of(root, key)] == content
            &&& other != key ==> {
                &&& after.dom().contains(object_of(root, other)) == disk.dom().contains(
                    object_of(root, other),
                )
                &&& after[object_of(root, other)] == disk[object_of(root, other)]
            }
        }),
{
    let key = hash::blake3_digest(content);
    if other != key {
        lemma_objects_differ(root, key, other);
    }
}

/// The lock of a cache, its records and what is stored lie under their names: a record in
/// the directory of its kind, and what is stored beside the others, both named by the
/// digits of their keys.
pub proof fn law_names_in_a_cache(root: Seq<char>, kind: Seq<char>, key: Seq<u8>)
    ensures
        lockfile_of(root) == path::join(root, ".hurry-lock"@),
        record_of(root, kind, key) == path::join(path::join(root, kind), hash::hex_text(key)),
        object_of(root, key) == path::join(root, hash::hex_text(key)),
{
}

} // verus!
