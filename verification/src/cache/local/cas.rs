//! Content-addressed storage on the local disk.
//!
//! The content of a key is in a file that is named by the key, in two levels of
//! directories that are named by its first digits: `ab/cd/abcd1234...`. Content is
//! compressed in the file. It is written to another file beside it first, which is
//! then renamed, so that there is never a file with half of its content.

use vstd::prelude::*;
use vstd::string::*;

use crate::cache::fs;
use crate::hash;
use crate::hash::Key;
use crate::path;
use crate::text;
use crate::zstd;

verus! {

/// Content-addressed storage below a directory.
#[derive(Debug)]
pub struct LocalCas {
    root: String,
}

impl View for LocalCas {
    type V = Seq<char>;

    closed spec fn view(&self) -> Seq<char> {
        self.root@
    }
}

/// The directory of a key's file.
pub open spec fn shard_of(root: Seq<char>, key: Seq<u8>) -> Seq<char> {
    let hex = hash::hex_text(key);
    path::join(path::join(root, hex.take(2)), hex.subrange(2, 4))
}

/// The file of a key.
pub open spec fn key_path_of(root: Seq<char>, key: Seq<u8>) -> Seq<char> {
    path::join(shard_of(root, key), hash::hex_text(key))
}

/// The file that content is written to first.
pub open spec fn temp_path_of(target: Seq<char>, id: Seq<char>) -> Seq<char> {
    target + ".tmp."@ + id
}

/// What is done to store some content.
#[derive(Debug)]
pub enum CasWrite {
    /// Nothing: the content is there.
    AlreadyThere,
    /// The directory is created where it is missing. The bytes are written to the
    /// temporary file. That is renamed to the path.
    Store { dir: String, temp: String, path: String, bytes: Vec<u8> },
}

/// Why content is not stored.
#[derive(Debug)]
pub enum CasWriteError {
    /// The content has another key, which is given.
    HashMismatch(Key),
    /// The content cannot be compressed.
    Encoding,
}

/// What came of renaming a file.
#[derive(Debug, Clone, Copy, PartialEq, Eq, Structural)]
pub enum RenameOutcome {
    Done,
    /// The new name is taken.
    AlreadyExists,
    Failed,
}

/// The file of some content could not be renamed.
#[derive(Debug, Clone, Copy, PartialEq, Eq, Structural)]
pub struct RenameFailed;

/// The file of a key does not hold compressed content.
#[derive(Debug, Clone, Copy, PartialEq, Eq, Structural)]
pub struct CorruptBlob;

/// Whether some write stores content under a key.
pub open spec fn stores(
    root: Seq<char>,
    key: Seq<u8>,
    content: Seq<u8>,
    id: Seq<char>,
    w: CasWrite,
) -> bool {
    w matches CasWrite::Store { dir, temp, path, bytes } && {
        &&& dir@ == shard_of(root, key)
        &&& path@ == key_path_of(root, key)
        &&& temp@ == temp_path_of(path@, id)
        &&& zstd::zstd_decoded(bytes@) == Some(content)
    }
}

/// How much is handed on at a time while content is copied.
const CHUNK: usize = 16384;

/// Copies content and computes its hash on the way. Returns the hash and how many
/// bytes were copied.
pub fn hashed_copy(source: &Vec<u8>, target: &mut Vec<u8>) -> (r: (Key, u64))
    ensures
        final(target)@ == old(target)@ + source@,
        r.0@ == hash::blake3_digest(source@),
        r.1 == source@.len(),
{
    let ghost before = target@;
    let n: usize = source.len();
    let mut hasher = hash::blake3_new();
    let mut i: usize = 0;
    assert(source@.take(0) =~= Seq::empty());
    assert(before + source@.take(0) =~= before);
    while i < n
        invariant
            i <= n,
            n == source.len(),
            target@ == before + source@.take(i as int),
            hash::blake3_fed(hasher) == source@.take(i as int),
        decreases n - i,
    {
        let end: usize = if n - i > CHUNK {
            i + CHUNK
        } else {
            n
        };
        let ghost copied = target@;
        let mut chunk: Vec<u8> = Vec::new();
        let mut j: usize = i;
        while j < end
            invariant
                i <= j <= end <= n,
                n == source.len(),
                chunk@ == source@.subrange(i as int, j as int),
            decreases end - j,
        {
            chunk.push(source[j]);
            assert(chunk@ =~= source@.subrange(i as int, j + 1));
            j += 1;
        }
        hash::blake3_update(&mut hasher, &chunk);
        target.append(&mut chunk);
        assert(source@.take(i as int) + source@.subrange(i as int, end as int) =~= source@.take(
            end as int,
        ));
        assert(copied + source@.subrange(i as int, end as int) =~= before + source@.take(
            end as int,
        ));
        i = end;
    }
    assert(source@.take(n as int) =~= source@);
    (Key::from_digest(&hasher), n as u64)
}

impl LocalCas {
    /// Storage below a directory, which is created when the first content is
    /// written.
    pub fn new(root: &str) -> (r: LocalCas)
        ensures
            r@ == root@,
    {
        LocalCas { root: text::copy(root) }
    }

    /// The directory of a key's file.
    fn shard_dir(&self, hex: &str) -> (r: String)
        requires
            hex@.len() == 64,
        ensures
            r@ == path::join(path::join(self@, hex@.take(2)), hex@.subrange(2, 4)),
    {
        let first = text::part(hex, 0, 2);
        let second = text::part(hex, 2, 4);
        assert(hex@.subrange(0, 2) =~= hex@.take(2));
        path::join_text(
            path::join_text(self.root.as_str(), first.as_str()).as_str(),
            second.as_str(),
        )
    }

    /// The file of a key.
    pub fn key_path(&self, key: &Key) -> (r: String)
        ensures
            r@ == key_path_of(self@, key@),
    {
        let hex = key.to_hex();
        path::join_text(self.shard_dir(hex.as_str()).as_str(), hex.as_str())
    }

    /// What is done to store some content under a key, given whether the key's file
    /// exists and an identifier for the temporary file. Content that has another
    /// key is refused. Content that has the key is stored, where it can be compressed.
    pub fn write(&self, key: &Key, content: &Vec<u8>, exists: bool, temp_id: &str) -> (r: Result<
        CasWrite,
        CasWriteError,
    >)
        ensures
            exists ==> r matches Ok(CasWrite::AlreadyThere),
            !exists && hash::blake3_digest(content@) != key@ ==> (r matches Err(
                CasWriteError::HashMismatch(actual),
            ) && actual@ == hash::blake3_digest(content@)),
            !exists && hash::blake3_digest(content@) == key@ ==> match zstd::zstd_encoded(
                content@,
            ) {
                Some(b) => r matches Ok(w) && {
                    &&& stores(self@, key@, content@, temp_id@, w)
                    &&& w->bytes@ == b
                },
                None => r matches Err(CasWriteError::Encoding),
            },
    {
        if exists {
            return Ok(CasWrite::AlreadyThere);
        }
        let mut copy: Vec<u8> = Vec::new();
        let (actual, _) = hashed_copy(content, &mut copy);
        assert(copy@ =~= content@);
        if !actual.same(key) {
            return Err(CasWriteError::HashMismatch(actual));
        }
        self.plan_store(key, zstd::zstd_encode(&copy), temp_id)
    }

    /// What is done to store content that was compressed, if that was possible.
    pub fn plan_store(&self, key: &Key, compressed: Option<Vec<u8>>, temp_id: &str) -> (r: Result<
        CasWrite,
        CasWriteError,
    >)
        ensures
            match compressed {
                None => r matches Err(CasWriteError::Encoding),
                Some(b) => r matches Ok(CasWrite::Store { dir, temp, path, bytes }) && {
                    &&& dir@ == shard_of(self@, key@)
                    &&& path@ == key_path_of(self@, key@)
                    &&& temp@ == temp_path_of(path@, temp_id@)
                    &&& bytes@ == b@
                },
            },
    {
        match compressed {
            None => Err(CasWriteError::Encoding),
            Some(bytes) => {
                let hex = key.to_hex();
                let dir = self.shard_dir(hex.as_str());
                let path = path::join_text(dir.as_str(), hex.as_str());
                let temp = text::concat3(path.as_str(), ".tmp.", temp_id);
                Ok(CasWrite::Store { dir, temp, path, bytes })
            },
        }
    }

    /// Whether the temporary file is removed, and whether the content was new.
    pub open spec fn finished(outcome: RenameOutcome) -> (bool, Result<bool, RenameFailed>) {
        match outcome {
            RenameOutcome::Done => (false, Ok(true)),
            RenameOutcome::AlreadyExists => (true, Ok(false)),
            RenameOutcome::Failed => (true, Err(RenameFailed)),
        }
    }

    /// Whether the temporary file is removed, and whether the content was new, given
    /// what came of the rename. Content that another has stored in the meantime was
    /// not.
    pub fn finish_write(outcome: RenameOutcome) -> (r: (bool, Result<bool, RenameFailed>))
        ensures
            r == Self::finished(outcome),
            r == (match outcome {
                RenameOutcome::Done => (false, Ok::<bool, RenameFailed>(true)),
                RenameOutcome::AlreadyExists => (true, Ok::<bool, RenameFailed>(false)),
                RenameOutcome::Failed => (true, Err::<bool, RenameFailed>(RenameFailed)),
            }),
    {
        match outcome {
            RenameOutcome::Done => (false, Ok(true)),
            RenameOutcome::AlreadyExists => (true, Ok(false)),
            RenameOutcome::Failed => (true, Err(RenameFailed)),
        }
    }

    /// The content of a key, given what its file holds, where there is one.
    pub fn read_buffered(file: Option<Vec<u8>>) -> (r: Result<Option<Vec<u8>>, CorruptBlob>)
        ensures
            match file {
                None => r matches Ok(None),
                Some(bytes) => match zstd::zstd_decoded(bytes@) {
                    Some(content) => r matches Ok(Some(c)) && c@ == content,
                    None => r is Err,
                },
            },
    {
        match file {
            None => Ok(None),
            Some(bytes) => match zstd::zstd_decode(&bytes) {
                Some(content) => Ok(Some(content)),
                None => Err(CorruptBlob),
            },
        }
    }
}

/// The content of a key, where the disk holds files by their paths.
pub open spec fn stored(root: Seq<char>, disk: Map<Seq<char>, Seq<u8>>, key: Seq<u8>) -> Option<
    Seq<u8>,
> {
    if disk.dom().contains(key_path_of(root, key)) {
        zstd::zstd_decoded(disk[key_path_of(root, key)])
    } else {
        None
    }
}

/// What the disk holds after a write whose rename was done.
pub open spec fn after_write(disk: Map<Seq<char>, Seq<u8>>, w: CasWrite) -> Map<
    Seq<char>,
    Seq<u8>,
> {
    match w {
        CasWrite::AlreadyThere => disk,
        CasWrite::Store { dir, temp, path, bytes } => disk.insert(temp@, bytes@).remove(
            temp@,
        ).insert(path@, bytes@),
    }
}

/// What the disk holds after a write whose rename was not done.
pub open spec fn after_failed_write(disk: Map<Seq<char>, Seq<u8>>, w: CasWrite) -> Map<
    Seq<char>,
    Seq<u8>,
> {
    match w {
        CasWrite::AlreadyThere => disk,
        CasWrite::Store { dir, temp, path, bytes } => disk.insert(temp@, bytes@).remove(temp@),
    }
}

/// Whether all that is stored has the key that it is stored under.
pub open spec fn is_content_addressed(root: Seq<char>, disk: Map<Seq<char>, Seq<u8>>) -> bool {
    forall|key: Seq<u8>|
        key.len() == 32 && disk.dom().contains(#[trigger] key_path_of(root, key)) ==> {
            &&& stored(root, disk, key) is Some
            &&& hash::blake3_digest(stored(root, disk, key)->0) == key
        }
}

proof fn lemma_key_path(root: Seq<char>, key: Seq<u8>)
    requires
        key.len() == 32,
    ensures
        key_path_of(root, key).len() == path::join(root, "xx"@).len() + 68,
        key_path_of(root, key).skip(key_path_of(root, key).len() - 64) == hash::hex_text(key),
{
    reveal_strlit("xx");
    let hex = hash::hex_text(key);
    fs::lemma_hex_is_relative(key);
    assert(hex.len() == 64);
    let first = path::join(root, hex.take(2));
    assert(first.last() == hex[1]);
    let second = path::join(first, hex.subrange(2, 4));
    assert(second.last() == hex[3]);
    let p = path::join(second, hex);
    assert(p.skip(p.len() - 64) =~= hex);
}

/// Different keys have different files.
pub proof fn law_keys_have_their_own_files(root: Seq<char>, a: Seq<u8>, b: Seq<u8>)
    requires
        a.len() == 32,
        b.len() == 32,
        key_path_of(root, a) == key_path_of(root, b),
    ensures
        a == b,
{
    lemma_key_path(root, a);
    lemma_key_path(root, b);
    hash::lemma_hex_text_injective(a, b);
}

/// What was written is read back, and what is stored under other keys stays as it
/// was.
pub proof fn law_written_content_is_read_back(
    root: Seq<char>,
    disk: Map<Seq<char>, Seq<u8>>,
    key: Seq<u8>,
    content: Seq<u8>,
    id: Seq<char>,
    w: CasWrite,
    other: Seq<u8>,
)
    requires
        key.len() == 32,
        other.len() == 32,
        stores(root, key, content, id, w),
    ensures
        stored(root, after_write(disk, w), key) == Some(content),
        other != key ==> stored(root, after_write(disk, w), other) == stored(root, disk, other),
{
    reveal_strlit(".tmp.");
    lemma_key_path(root, key);
    lemma_key_path(root, other);
    assert(w->temp@.len() > key_path_of(root, other).len());
    if other != key && key_path_of(root, other) == key_path_of(root, key) {
        law_keys_have_their_own_files(root, other, key);
    }
}

/// A write whose rename is not done changes nothing that is stored.
pub proof fn law_failed_write_stores_nothing(
    root: Seq<char>,
    disk: Map<Seq<char>, Seq<u8>>,
    key: Seq<u8>,
    content: Seq<u8>,
    id: Seq<char>,
    w: CasWrite,
    other: Seq<u8>,
)
    requires
        key.len() == 32,
        other.len() == 32,
        stores(root, key, content, id, w),
    ensures
        stored(root, after_failed_write(disk, w), other) == stored(root, disk, other),
{
    reveal_strlit(".tmp.");
    lemma_key_path(root, key);
    lemma_key_path(root, other);
    assert(w->temp@.len() > key_path_of(root, other).len());
}

/// What is stored always has the key that it is stored under: nothing is stored at
/// first, and a write of content under its own key keeps it so.
pub proof fn law_store_stays_content_addressed(
    root: Seq<char>,
    disk: Map<Seq<char>, Seq<u8>>,
    key: Seq<u8>,
    content: Seq<u8>,
    id: Seq<char>,
    w: CasWrite,
)
    requires
        key.len() == 32,
        is_content_addressed(root, disk),
        stores(root, key, content, id, w),
        hash::blake3_digest(content) == key,
    ensures
        is_content_addressed(root, Map::<Seq<char>, Seq<u8>>::empty()),
        is_content_addressed(root, after_write(disk, w)),
{
    let after = after_write(disk, w);
    assert forall|k: Seq<u8>|
        k.len() == 32 && after.dom().contains(#[trigger] key_path_of(root, k)) implies {
        &&& stored(root, after, k) is Some
        &&& hash::blake3_digest(stored(root, after, k)->0) == k
    } by {
        law_written_content_is_read_back(root, disk, key, content, id, w, k);
        if k != key {
            reveal_strlit(".tmp.");
            lemma_key_path(root, k);
            lemma_key_path(root, key);
            if key_path_of(root, k) == key_path_of(root, key) {
                law_keys_have_their_own_files(root, k, key);
            }
            assert(disk.dom().contains(key_path_of(root, k)));
        }
    }
}

/// The file of a key is named by the 64 digits of the key, in two levels of directories
/// that are named by its first two digits and by the next two. What is written goes to a
/// file beside it first.
pub proof fn law_places_of_keys(root: Seq<char>, key: Seq<u8>, id: Seq<char>)
    requires
        key.len() == 32,
    ensures
        ({
            let hex = hash::hex_text(key);
            let first = path::join(root, seq![hex[0], hex[1]]);
            let second = path::join(first, seq![hex[2], hex[3]]);
            &&& shard_of(root, key) == second
            &&& key_path_of(root, key) == path::join(second, hex)
            &&& temp_path_of(path::join(second, hex), id) == path::join(second, hex) + ".tmp."@ + id
        }),
{
    let hex = hash::hex_text(key);
    assert(hex.len() == 64);
    assert(hex.take(2) =~= seq![hex[0], hex[1]]);
    assert(hex.subrange(2, 4) =~= seq![hex[2], hex[3]]);
}

/// No temporary file is left, whatever came of the rename: it was renamed, or is removed.
/// Content was new exactly where it was renamed, and that another has stored it in the
/// meantime is no failure.
pub proof fn law_no_temporary_file_is_left(outcome: RenameOutcome)
    ensures
        LocalCas::finished(outcome).0 <==> !(outcome is Done),
        LocalCas::finished(outcome).1 is Err <==> outcome is Failed,
        LocalCas::finished(outcome).1 matches Ok(new) ==> (new <==> outcome is Done),
{
}

} // verus!
