//! Fetching the contents of restored files, in batches.

use vstd::prelude::*;
use vstd::string::*;

use crate::cargo::cache::restore;
use crate::cargo::cache::restore::FileRestoreKey;
use crate::cargo::workspace::UnitHash;
use crate::dash;
use crate::hash;
use crate::hash::Key;

verus! {

/// How many files are fetched at once.
pub const BATCH_SIZE: usize = 50;

/// Files that wait to be fetched together.
pub struct Batcher {
    files: Vec<FileRestoreKey>,
}

impl View for Batcher {
    type V = Seq<restore::FileRestoreKeyView>;

    closed spec fn view(&self) -> Seq<restore::FileRestoreKeyView> {
        restore::restore_views(self.files@)
    }
}

/// Whether `batches` split `files` into full batches, with what is left waiting.
pub open spec fn splits(
    files: Seq<restore::FileRestoreKeyView>,
    batches: Seq<Seq<restore::FileRestoreKeyView>>,
    waiting: Seq<restore::FileRestoreKeyView>,
) -> bool {
    &&& files == batches.flatten() + waiting
    &&& forall|i: int| 0 <= i < batches.len() ==> (#[trigger] batches[i]).len() == BATCH_SIZE
    &&& waiting.len() < BATCH_SIZE
}

impl Batcher {
    #[verifier::type_invariant]
    spec fn inv(self) -> bool {
        self.files@.len() < BATCH_SIZE
    }

    /// No files.
    pub fn new() -> (r: Batcher)
        ensures
            r@ == Seq::<restore::FileRestoreKeyView>::empty(),
    {
        let r = Batcher { files: Vec::new() };
        assert(r@ =~= Seq::empty());
        r
    }

    /// Adds a file. Once the batch is full it is handed out.
    pub fn push(self, file: FileRestoreKey) -> (r: (Batcher, Option<Vec<FileRestoreKey>>))
        ensures
            self@.len() < BATCH_SIZE,
            match r.1 {
                Some(batch) => {
                    &&& self@.len() + 1 == BATCH_SIZE
                    &&& restore::restore_views(batch@) == self@.push(file@)
                    &&& r.0@ == Seq::<restore::FileRestoreKeyView>::empty()
                },
                None => {
                    &&& self@.len() + 1 < BATCH_SIZE
                    &&& r.0@ == self@.push(file@)
                },
            },
    {
        proof {
            use_type_invariant(&self);
        }
        let mut files: Vec<FileRestoreKey> = self.files;
        let ghost before = self@;
        files.push(file);
        assert(restore::restore_views(files@) =~= before.push(file@));
        if files.len() < BATCH_SIZE {
            (Batcher { files }, None)
        } else {
            (Batcher::new(), Some(files))
        }
    }

    /// The files that are left, where there are any.
    pub fn finish(self) -> (r: Option<Vec<FileRestoreKey>>)
        ensures
            match r {
                Some(batch) => self@.len() > 0 && restore::restore_views(batch@) == self@,
                None => self@.len() == 0,
            },
    {
        if self.files.len() == 0 {
            None
        } else {
            Some(self.files)
        }
    }
}

/// Adding a file keeps the split: no file is lost, none is fetched twice, and their
/// order stays.
pub proof fn law_batches_hold_all_files(
    files: Seq<restore::FileRestoreKeyView>,
    batches: Seq<Seq<restore::FileRestoreKeyView>>,
    waiting: Seq<restore::FileRestoreKeyView>,
    file: restore::FileRestoreKeyView,
)
    requires
        splits(files, batches, waiting),
    ensures
        waiting.len() + 1 < BATCH_SIZE ==> splits(files.push(file), batches, waiting.push(file)),
        waiting.len() + 1 == BATCH_SIZE ==> splits(
            files.push(file),
            batches.push(waiting.push(file)),
            Seq::empty(),
        ),
{
    let all = files.push(file);
    assert(all =~= batches.flatten() + waiting.push(file));
    let more = batches.push(waiting.push(file));
    batches.lemma_flatten_push(waiting.push(file));
    assert(more.flatten() + Seq::empty() =~= all);
}

/// The files of a batch whose contents were not received yet.
pub struct Batch {
    files: Vec<FileRestoreKey>,
}

impl View for Batch {
    type V = Seq<restore::FileRestoreKeyView>;

    closed spec fn view(&self) -> Seq<restore::FileRestoreKeyView> {
        restore::restore_views(self.files@)
    }
}

/// The views of a sequence of keys.
pub open spec fn key_views(v: Seq<Key>) -> Seq<Seq<u8>> {
    Seq::new(v.len(), |i: int| v[i]@)
}

/// Whether some file has a key.
pub open spec fn has_key(files: Seq<restore::FileRestoreKeyView>, key: Seq<u8>) -> bool {
    exists|i: int| 0 <= i < files.len() && (#[trigger] files[i]).key == key
}

/// The keys of some files, each once, in the order in which they first come.
pub open spec fn distinct_keys(files: Seq<restore::FileRestoreKeyView>) -> Seq<Seq<u8>>
    decreases files.len(),
{
    if files.len() == 0 {
        Seq::empty()
    } else {
        let before = distinct_keys(files.drop_last());
        if has_key(files.drop_last(), files.last().key) {
            before
        } else {
            before.push(files.last().key)
        }
    }
}

/// The files that have a key.
pub open spec fn with_key(
    files: Seq<restore::FileRestoreKeyView>,
    key: Seq<u8>,
) -> Seq<restore::FileRestoreKeyView>
    decreases files.len(),
{
    if files.len() == 0 {
        Seq::empty()
    } else {
        let before = with_key(files.drop_last(), key);
        if files.last().key == key {
            before.push(files.last())
        } else {
            before
        }
    }
}

/// The files that do not have a key.
pub open spec fn without_key(
    files: Seq<restore::FileRestoreKeyView>,
    key: Seq<u8>,
) -> Seq<restore::FileRestoreKeyView>
    decreases files.len(),
{
    if files.len() == 0 {
        Seq::empty()
    } else {
        let before = without_key(files.drop_last(), key);
        if files.last().key == key {
            before
        } else {
            before.push(files.last())
        }
    }
}

/// A key that no file of the batch has.
#[derive(Debug, Clone, Copy, PartialEq, Eq, Structural)]
pub struct UnrecognizedKey;

/// Keys of a batch whose contents were not received.
#[derive(Debug)]
pub struct Undelivered {
    pub keys: Vec<Key>,
}

impl Batch {
    /// A batch of files.
    pub fn new(files: Vec<FileRestoreKey>) -> (r: Batch)
        ensures
            r@ == restore::restore_views(files@),
    {
        Batch { files }
    }

    /// The keys whose contents are fetched. A key that several files have is fetched
    /// once.
    pub fn keys(&self) -> (r: Vec<Key>)
        ensures
            key_views(r@) == distinct_keys(self@),
    {
        let ghost all = self@;
        let mut r: Vec<Key> = Vec::new();
        let mut i: usize = 0;
        assert(key_views(r@) =~= distinct_keys(all.take(0)));
        while i < self.files.len()
            invariant
                i <= self.files.len(),
                all == restore::restore_views(self.files@),
                key_views(r@) == distinct_keys(all.take(i as int)),
            decreases self.files.len() - i,
        {
            let ghost before = key_views(r@);
            let ghost front = all.take(i as int);
            proof {
                assert(all.take(i + 1).drop_last() =~= front);
                assert(all.take(i + 1).last() == self.files@[i as int]@);
            }
            let key = &self.files[i].key;
            let mut seen: bool = false;
            let mut j: usize = 0;
            while j < i && !seen
                invariant
                    j <= i <= self.files.len(),
                    all == restore::restore_views(self.files@),
                    front == all.take(i as int),
                    seen ==> has_key(front, key@),
                    !seen ==> forall|k: int| 0 <= k < j ==> (#[trigger] front[k]).key != key@,
                decreases i - j + (if seen {
                    0int
                } else {
                    1int
                }),
            {
                assert(front[j as int] == self.files@[j as int]@);
                if self.files[j].key.same(key) {
                    assert(front[j as int].key == key@);
                    seen = true;
                }
                j += 1;
            }
            if !seen {
                r.push(key.clone());
                assert(key_views(r@) =~= before.push(key@));
            }
            i += 1;
        }
        assert(all.take(self.files.len() as int) =~= all);
        r
    }

    /// Takes out the files that have a key whose contents were received.
    pub fn take(&mut self, key: &Key) -> (r: Result<Vec<FileRestoreKey>, UnrecognizedKey>)
        ensures
            match r {
                Ok(files) => {
                    &&& has_key(old(self)@, key@)
                    &&& restore::restore_views(files@) == with_key(old(self)@, key@)
                    &&& final(self)@ == without_key(old(self)@, key@)
                },
                Err(_) => !has_key(old(self)@, key@) && final(self)@ == old(self)@,
            },
    {
        let ghost all = self@;
        let mut i: usize = 0;
        let mut found: bool = false;
        while i < self.files.len()
            invariant
                i <= self.files.len(),
                all == restore::restore_views(self.files@),
                self@ == all,
                found ==> has_key(all, key@),
                !found ==> forall|k: int| 0 <= k < i ==> (#[trigger] all[k]).key != key@,
            decreases self.files.len() - i,
        {
            assert(all[i as int] == self.files@[i as int]@);
            if self.files[i].key.same(key) {
                assert(all[i as int].key == key@);
                found = true;
            }
            i += 1;
        }
        if !found {
            return Err(UnrecognizedKey);
        }
        let mut rest: Vec<FileRestoreKey> = Vec::new();
        let mut waiting: Vec<FileRestoreKey> = Vec::new();
        std::mem::swap(&mut self.files, &mut waiting);
        let mut taken: Vec<FileRestoreKey> = Vec::new();
        let n: usize = waiting.len();
        let ghost files = waiting@;
        let mut i: usize = 0;
        assert(restore::restore_views(taken@) =~= with_key(all.take(0), key@));
        assert(restore::restore_views(rest@) =~= without_key(all.take(0), key@));
        assert(files.skip(0) =~= files);
        while i < n
            invariant
                i <= n,
                n == files.len(),
                all == restore::restore_views(files),
                waiting@ == files.skip(i as int),
                restore::restore_views(taken@) == with_key(all.take(i as int), key@),
                restore::restore_views(rest@) == without_key(all.take(i as int), key@),
            decreases n - i,
        {
            let ghost before_taken = restore::restore_views(taken@);
            let ghost before_rest = restore::restore_views(rest@);
            let file: FileRestoreKey = waiting.remove(0);
            proof {
                assert(file == files[i as int]);
                assert(waiting@ =~= files.skip(i + 1));
                assert(all.take(i + 1).drop_last() =~= all.take(i as int));
                assert(all.take(i + 1).last() == file@);
            }
            if file.key.same(key) {
                taken.push(file);
                assert(restore::restore_views(taken@) =~= before_taken.push(file@));
            } else {
                rest.push(file);
                assert(restore::restore_views(rest@) =~= before_rest.push(file@));
            }
            i += 1;
        }
        assert(all.take(n as int) =~= all);
        self.files = rest;
        Ok(taken)
    }

    /// Ends the batch, once no more contents come. Files that still wait are an error.
    pub fn finish(self) -> (r: Result<(), Undelivered>)
        ensures
            r is Ok <==> self@.len() == 0,
            r matches Err(e) ==> key_views(e.keys@) == distinct_keys(self@),
    {
        if self.files.len() == 0 {
            Ok(())
        } else {
            Err(Undelivered { keys: self.keys() })
        }
    }
}

/// The files that still wait after the contents of some keys were received.
pub open spec fn waiting_after(
    files: Seq<restore::FileRestoreKeyView>,
    received: Seq<Seq<u8>>,
) -> Seq<restore::FileRestoreKeyView>
    decreases received.len(),
{
    if received.len() == 0 {
        files
    } else {
        without_key(waiting_after(files, received.drop_last()), received.last())
    }
}

proof fn lemma_without_key_keeps_others(
    files: Seq<restore::FileRestoreKeyView>,
    key: Seq<u8>,
    other: Seq<u8>,
)
    requires
        key != other,
    ensures
        has_key(without_key(files, key), other) == has_key(files, other),
    decreases files.len(),
{
    if files.len() > 0 {
        let front = files.drop_last();
        let rest = without_key(files, key);
        let before = without_key(front, key);
        lemma_without_key_keeps_others(front, key, other);
        if has_key(files, other) {
            let i = choose|i: int| 0 <= i < files.len() && (#[trigger] files[i]).key == other;
            if i < front.len() {
                assert(front[i].key == other);
                let j = choose|j: int| 0 <= j < before.len() && (#[trigger] before[j]).key == other;
                assert(rest[j].key == other);
            } else {
                assert(rest[rest.len() - 1].key == other);
            }
        }
        if has_key(rest, other) {
            let j = choose|j: int| 0 <= j < rest.len() && (#[trigger] rest[j]).key == other;
            if j < before.len() {
                assert(before[j].key == other);
                let i = choose|i: int| 0 <= i < front.len() && (#[trigger] front[i]).key == other;
                assert(files[i].key == other);
            } else {
                assert(files[files.len() - 1].key == other);
            }
        }
    }
}

/// A batch ends without an error exactly when the contents of every file in it were
/// received.
pub proof fn law_batch_ends_when_all_is_received(
    files: Seq<restore::FileRestoreKeyView>,
    received: Seq<Seq<u8>>,
)
    ensures
        waiting_after(files, received).len() == 0 <==> (forall|i: int|
            0 <= i < files.len() ==> received.contains((#[trigger] files[i]).key)),
{
    let left = waiting_after(files, received);
    if left.len() == 0 {
        assert forall|i: int| 0 <= i < files.len() implies received.contains(
            (#[trigger] files[i]).key,
        ) by {
            assert(has_key(files, files[i].key));
            lemma_waiting_after(files, received, files[i].key);
            if has_key(left, files[i].key) {
                let j = choose|j: int|
                    0 <= j < left.len() && (#[trigger] left[j]).key == files[i].key;
                assert(left[j].key == files[i].key);
            }
        }
    } else {
        let key = left[0].key;
        assert(has_key(left, key));
        lemma_waiting_after(files, received, key);
        let i = choose|i: int| 0 <= i < files.len() && (#[trigger] files[i]).key == key;
        assert(files[i].key == key);
    }
}

proof fn lemma_waiting_after(
    files: Seq<restore::FileRestoreKeyView>,
    received: Seq<Seq<u8>>,
    key: Seq<u8>,
)
    ensures
        has_key(waiting_after(files, received), key) <==> has_key(files, key)
            && !received.contains(key),
    decreases received.len(),
{
    if received.len() > 0 {
        let front = received.drop_last();
        let last = received.last();
        lemma_waiting_after(files, front, key);
        assert(received.contains(key) <==> front.contains(key) || key == last) by {
            if received.contains(key) {
                let i = choose|i: int| 0 <= i < received.len() && received[i] == key;
                if i < front.len() {
                    assert(front[i] == key);
                }
            }
            if front.contains(key) {
                let i = choose|i: int| 0 <= i < front.len() && front[i] == key;
                assert(received[i] == key);
            }
            assert(received[received.len() - 1] == last);
        }
        if key == last {
            law_received_files_are_split_off(waiting_after(files, front), key);
        } else {
            lemma_without_key_keeps_others(waiting_after(files, front), last, key);
        }
    }
}

/// Each key of a batch is fetched exactly once.
pub proof fn law_every_key_is_fetched_once(files: Seq<restore::FileRestoreKeyView>)
    ensures
        distinct_keys(files).no_duplicates(),
        forall|k: Seq<u8>| #[trigger] distinct_keys(files).contains(k) <==> has_key(files, k),
    decreases files.len(),
{
    if files.len() > 0 {
        let front = files.drop_last();
        let before = distinct_keys(front);
        let all = distinct_keys(files);
        let last = files.last().key;
        law_every_key_is_fetched_once(front);
        assert(before.contains(last) <==> has_key(front, last));
        assert forall|k: Seq<u8>| #[trigger] all.contains(k) <==> has_key(files, k) by {
            assert(before.contains(k) <==> has_key(front, k));
            if all.contains(k) {
                let i = choose|i: int| 0 <= i < all.len() && all[i] == k;
                if i < before.len() {
                    assert(before[i] == k);
                    let j = choose|j: int| 0 <= j < front.len() && (#[trigger] front[j]).key == k;
                    assert(files[j].key == k);
                } else {
                    assert(files[files.len() - 1].key == k);
                }
            }
            if has_key(files, k) {
                let j = choose|j: int| 0 <= j < files.len() && (#[trigger] files[j]).key == k;
                if j < front.len() {
                    assert(front[j].key == k);
                    let i = choose|i: int| 0 <= i < before.len() && before[i] == k;
                    assert(all[i] == k);
                } else if has_key(front, last) {
                    let i = choose|i: int| 0 <= i < before.len() && before[i] == k;
                    assert(all[i] == k);
                } else {
                    assert(all[before.len() as int] == k);
                }
            }
        }
        assert forall|i: int, j: int| 0 <= i < all.len() && 0 <= j < all.len() && i
            != j implies all[i] != all[j] by {
            if i < before.len() && j < before.len() {
                assert(before[i] != before[j]);
            } else if !has_key(front, last) {
                if i < before.len() {
                    assert(before.contains(before[i]));
                }
                if j < before.len() {
                    assert(before.contains(before[j]));
                }
            }
        }
    }
}

/// Receiving the contents of a key deals with all files that have it, and leaves
/// the others waiting.
pub proof fn law_received_files_are_split_off(
    files: Seq<restore::FileRestoreKeyView>,
    key: Seq<u8>,
)
    ensures
        with_key(files, key).len() + without_key(files, key).len() == files.len(),
        forall|i: int|
            0 <= i < with_key(files, key).len() ==> (#[trigger] with_key(files, key)[i]).key == key,
        !has_key(without_key(files, key), key),
    decreases files.len(),
{
    if files.len() > 0 {
        let front = files.drop_last();
        law_received_files_are_split_off(front, key);
        let rest = without_key(files, key);
        if has_key(rest, key) {
            let i = choose|i: int| 0 <= i < rest.len() && (#[trigger] rest[i]).key == key;
            assert(without_key(front, key)[i].key == key);
        }
    }
}

/// Tracks which files of which units are still to be restored. All files of a unit
/// are entered before any of them is restored, so that a unit is complete once
/// none is left.
pub struct RestoreProgress {
    units: dashmap::DashMap<String, dashmap::DashSet<String>>,
}

impl View for RestoreProgress {
    type V = Map<Seq<char>, Set<Seq<char>>>;

    closed spec fn view(&self) -> Map<Seq<char>, Set<Seq<char>>> {
        dash::map_contents(self.units)
    }
}

/// The keys of some files, as text.
pub open spec fn key_texts(files: Seq<restore::FileRestoreKeyView>) -> Set<Seq<char>> {
    Set::new(
        |t: Seq<char>|
            exists|i: int|
                0 <= i < files.len() && hash::hex_text((#[trigger] files[i]).key) == t,
    )
}

/// A unit whose restore was not begun.
#[derive(Debug, Clone, Copy, PartialEq, Eq, Structural)]
pub struct NotInitialized;

impl RestoreProgress {
    /// No units.
    pub fn new() -> (r: RestoreProgress)
        ensures
            r@ == dash::no_entries(),
    {
        RestoreProgress { units: dash::map_new() }
    }

    /// Begins a unit: enters the keys of all its files.
    pub fn begin(&mut self, hash: &UnitHash, files: &Vec<FileRestoreKey>)
        ensures
            final(self)@ == old(self)@.insert(
                hash@,
                key_texts(restore::restore_views(files@)),
            ),
    {
        let ghost all = restore::restore_views(files@);
        let mut pending = dash::set_new();
        let mut i: usize = 0;
        assert(dash::set_contents(pending) =~= key_texts(all.take(0)));
        while i < files.len()
            invariant
                i <= files.len(),
                all == restore::restore_views(files@),
                dash::set_contents(pending) == key_texts(all.take(i as int)),
            decreases files.len() - i,
        {
            let ghost before = dash::set_contents(pending);
            let ghost front = all.take(i as int);
            let ghost more = all.take(i + 1);
            dash::set_insert(&mut pending, files[i].key.to_hex());
            proof {
                let t0 = hash::hex_text(files@[i as int].key@);
                assert(more[i as int].key == files@[i as int].key@);
                assert forall|t: Seq<char>| before.insert(t0).contains(t) == key_texts(
                    more,
                ).contains(t) by {
                    if before.contains(t) {
                        let k = choose|k: int|
                            0 <= k < front.len() && hash::hex_text((#[trigger] front[k]).key) == t;
                        assert(hash::hex_text(more[k].key) == t);
                    }
                    if t == t0 {
                        assert(hash::hex_text(more[i as int].key) == t);
                    }
                    if key_texts(more).contains(t) {
                        let k = choose|k: int|
                            0 <= k < more.len() && hash::hex_text((#[trigger] more[k]).key) == t;
                        if k < i {
                            assert(hash::hex_text(front[k].key) == t);
                        }
                    }
                }
                assert(dash::set_contents(pending) =~= key_texts(more));
            }
            i += 1;
        }
        assert(all.take(files.len() as int) =~= all);
        dash::map_insert(&mut self.units, hash.text.clone(), pending);
    }

    /// Notes that a file of a unit was restored, and tells whether the unit has no
    /// files left. A key that several files of the unit have is done with the first
    /// of them.
    pub fn complete(&mut self, hash: &UnitHash, key: &Key) -> (r: Result<bool, NotInitialized>)
        ensures
            match r {
                Ok(done) => {
                    &&& old(self)@.contains_key(hash@)
                    &&& final(self)@ == old(self)@.insert(
                        hash@,
                        old(self)@[hash@].remove(hash::hex_text(key@)),
                    )
                    &&& done == (final(self)@[hash@] == Set::<Seq<char>>::empty())
                },
                Err(_) => !old(self)@.contains_key(hash@) && final(self)@ == old(self)@,
            },
    {
        match dash::map_remove(&mut self.units, hash.text.as_str()) {
            None => {
                assert(self@ =~= old(self)@);
                Err(NotInitialized)
            },
            Some(pending) => {
                let mut pending = pending;
                dash::set_remove(&mut pending, key.to_hex().as_str());
                let done: bool = dash::set_is_empty(&pending);
                dash::map_insert(&mut self.units, hash.text.clone(), pending);
                assert(self@ =~= old(self)@.insert(
                    hash@,
                    old(self)@[hash@].remove(hash::hex_text(key@)),
                ));
                Ok(done)
            },
        }
    }

    /// Whether the restore of a unit was begun and has no files left.
    pub fn is_complete(&mut self, hash: &UnitHash) -> (r: bool)
        ensures
            final(self)@ == old(self)@,
            r == unit_is_complete(old(self)@, hash@),
    {
        match dash::map_remove(&mut self.units, hash.text.as_str()) {
            None => {
                assert(self@ =~= old(self)@);
                false
            },
            Some(pending) => {
                let done: bool = dash::set_is_empty(&pending);
                dash::map_insert(&mut self.units, hash.text.clone(), pending);
                assert(self@ =~= old(self)@);
                done
            },
        }
    }
}

/// Whether the restore of a unit was begun and has no files left.
pub open spec fn unit_is_complete(
    progress: Map<Seq<char>, Set<Seq<char>>>,
    hash: Seq<char>,
) -> bool {
    progress.contains_key(hash) && progress[hash] == Set::<Seq<char>>::empty()
}

/// What is left of a unit is always what was begun without what was received: at
/// first all keys are left, and receiving one takes that one away.
pub proof fn law_progress_is_what_was_not_received(
    files: Seq<restore::FileRestoreKeyView>,
    received: Set<Seq<char>>,
    key: Seq<char>,
)
    ensures
        key_texts(files).difference(Set::empty()) == key_texts(files),
        key_texts(files).difference(received).remove(key) == key_texts(files).difference(
            received.insert(key),
        ),
{
    assert(key_texts(files).difference(Set::empty()) =~= key_texts(files));
    assert(key_texts(files).difference(received).remove(key) =~= key_texts(files).difference(
        received.insert(key),
    ));
}

/// A unit is complete exactly when the contents of all its keys were restored.
pub proof fn law_unit_is_complete_when_all_keys_are(
    files: Seq<restore::FileRestoreKeyView>,
    restored: Set<Seq<char>>,
)
    ensures
        key_texts(files).difference(restored) == Set::<Seq<char>>::empty() <==> (forall|i: int|
            0 <= i < files.len() ==> restored.contains(hash::hex_text((#[trigger] files[i]).key))),
{
    let left = key_texts(files).difference(restored);
    if left == Set::<Seq<char>>::empty() {
        assert forall|i: int| 0 <= i < files.len() implies restored.contains(
            hash::hex_text((#[trigger] files[i]).key),
        ) by {
            let t = hash::hex_text(files[i].key);
            assert(key_texts(files).contains(t));
            assert(!left.contains(t));
        }
    }
    if forall|i: int|
        0 <= i < files.len() ==> restored.contains(hash::hex_text((#[trigger] files[i]).key)) {
        assert(left =~= Set::empty());
    }
}

proof fn lemma_keys_are_filtered(
    files: Seq<restore::FileRestoreKeyView>,
    key: Seq<u8>,
    has: spec_fn(restore::FileRestoreKeyView) -> bool,
    lacks: spec_fn(restore::FileRestoreKeyView) -> bool,
)
    requires
        forall|f: restore::FileRestoreKeyView| #[trigger] has(f) == (f.key == key),
        forall|f: restore::FileRestoreKeyView| #[trigger] lacks(f) == (f.key != key),
    ensures
        with_key(files, key) == files.filter(has),
        without_key(files, key) == files.filter(lacks),
    decreases files.len(),
{
    reveal(Seq::filter);
    if files.len() > 0 {
        lemma_keys_are_filtered(files.drop_last(), key, has, lacks);
        assert(has(files.last()) == !lacks(files.last()));
    }
}

/// What is received for a key is for all files that have it, in their order, and the
/// others stay in theirs.
pub proof fn law_received_contents_are_for_all_files_of_a_key(
    files: Seq<restore::FileRestoreKeyView>,
    key: Seq<u8>,
)
    ensures
        with_key(files, key) == files.filter(|f: restore::FileRestoreKeyView| f.key == key),
        without_key(files, key) == files.filter(|f: restore::FileRestoreKeyView| f.key != key),
{
    lemma_keys_are_filtered(
        files,
        key,
        |f: restore::FileRestoreKeyView| f.key == key,
        |f: restore::FileRestoreKeyView| f.key != key,
    );
}

/// What waits for a unit are the keys of its files, as text. It is complete exactly where
/// it was begun and nothing waits.
pub proof fn law_what_waits_for_a_unit(
    files: Seq<restore::FileRestoreKeyView>,
    t: Seq<char>,
    progress: Map<Seq<char>, Set<Seq<char>>>,
    hash: Seq<char>,
)
    ensures
        key_texts(files).contains(t) <==> exists|i: int|
            0 <= i < files.len() && hash::hex_text((#[trigger] files[i]).key) == t,
        unit_is_complete(progress, hash) <==> progress.contains_key(hash) && (forall|x: Seq<char>|
            !(#[trigger] progress[hash].contains(x))),
{
    if progress.contains_key(hash) && (forall|x: Seq<char>|
        !(#[trigger] progress[hash].contains(x))) {
        assert(progress[hash] =~= Set::empty());
    }
}

/// Files are fetched fifty at a time, and what is left waits.
pub proof fn law_batches_are_full(
    files: Seq<restore::FileRestoreKeyView>,
    batches: Seq<Seq<restore::FileRestoreKeyView>>,
    waiting: Seq<restore::FileRestoreKeyView>,
)
    requires
        splits(files, batches, waiting),
    ensures
        forall|i: int| 0 <= i < batches.len() ==> (#[trigger] batches[i]).len() == 50,
        waiting.len() < 50,
        files.len() == 50 * batches.len() + waiting.len(),
    decreases batches.len(),
{
    if batches.len() == 0 {
        assert(batches =~= Seq::empty());
        assert(batches.flatten() + waiting =~= waiting);
    } else {
        let front = batches.drop_last();
        let less = front.flatten() + waiting;
        front.lemma_flatten_push(batches.last());
        assert(front.push(batches.last()) =~= batches);
        assert forall|i: int| 0 <= i < front.len() implies (#[trigger] front[i]).len()
            == BATCH_SIZE by {
            assert(front[i] == batches[i]);
        }
        law_batches_are_full(less, front, waiting);
        assert(batches[batches.len() - 1].len() == BATCH_SIZE);
        assert(files.len() == front.flatten().len() + batches.last().len() + waiting.len());
    }
}

} // verus!
