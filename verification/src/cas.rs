//! Content-addressed storage in the remote cache.

use vstd::prelude::*;
use vstd::string::*;

use crate::client::{CasBulkWriteKeyError, CasBulkWriteResponse};
use crate::hash;
use crate::hash::{Key, KeySet};
use crate::sort;
use crate::sort::Sortable;
use crate::text;

verus! {

/// Content-addressed storage in the remote cache.
#[derive(Debug)]
pub struct CourierCas;

/// Content that is not there.
#[derive(Debug, Clone, Copy, PartialEq, Eq, Structural)]
pub struct MissingKey;

/// Content that could not be stored.
#[derive(Debug)]
pub struct BulkStoreError {
    /// The key of the content.
    pub key: Key,
    /// Why it could not be stored.
    pub error: String,
}

impl View for BulkStoreError {
    type V = (Seq<u8>, Seq<char>);

    open spec fn view(&self) -> (Seq<u8>, Seq<char>) {
        (self.key@, self.error@)
    }
}

/// What came of storing many pieces of content.
#[derive(Debug)]
pub struct BulkStoreResult {
    /// The keys of content that was written.
    pub written: KeySet,
    /// The keys of content that was there before.
    pub skipped: KeySet,
    /// What could not be written: each error once, in order.
    pub errors: Vec<BulkStoreError>,
}

/// Whether an error may stand before another: by the key, and then by the reason.
pub open spec fn error_at_most(a: (Seq<u8>, Seq<char>), b: (Seq<u8>, Seq<char>)) -> bool {
    if a.0 == b.0 {
        text::at_most(a.1, b.1)
    } else {
        hash::bytes_at_most(a.0, b.0)
    }
}

/// Errors are one after the other.
pub proof fn lemma_error_at_most_total(a: (Seq<u8>, Seq<char>), b: (Seq<u8>, Seq<char>))
    ensures
        error_at_most(a, b) || error_at_most(b, a),
        error_at_most(a, b) && error_at_most(b, a) <==> a == b,
{
    hash::lemma_bytes_at_most_total(a.0, b.0);
    text::lemma_at_most_total(a.1, b.1);
}

impl Sortable for BulkStoreError {
    open spec fn may_precede(self, other: Self) -> bool {
        error_at_most(self@, other@)
    }

    proof fn one_may_precede(a: Self, b: Self) {
        lemma_error_at_most_total(a@, b@);
    }

    proof fn precedence_carries_over(a: Self, b: Self, c: Self) {
        hash::lemma_bytes_at_most_total(a.key@, b.key@);
        hash::lemma_bytes_at_most_total(b.key@, c.key@);
        hash::lemma_bytes_at_most_total(a.key@, c.key@);
        if hash::bytes_at_most(a.key@, b.key@) && hash::bytes_at_most(b.key@, c.key@) {
            hash::lemma_bytes_at_most_transitive(a.key@, b.key@, c.key@);
        }
        if a.key@ == b.key@ && b.key@ == c.key@ {
            text::lemma_at_most_transitive(a.error@, b.error@, c.error@);
        }
    }

    fn precedes(&self, other: &Self) -> (r: bool) {
        if self.key.same(&other.key) {
            text::is_at_most(self.error.as_str(), other.error.as_str())
        } else {
            self.key.precedes(&other.key)
        }
    }
}

/// Errors in terms of bytes and characters.
pub open spec fn error_views(errors: Seq<BulkStoreError>) -> Seq<(Seq<u8>, Seq<char>)> {
    Seq::new(errors.len(), |i: int| errors[i]@)
}

/// The errors of an answer in terms of bytes and characters.
pub open spec fn answer_views(errors: Seq<CasBulkWriteKeyError>) -> Seq<(Seq<u8>, Seq<char>)> {
    Seq::new(errors.len(), |i: int| (errors[i].key@, errors[i].error@))
}

/// The errors of a list.
pub open spec fn error_set(errors: Seq<(Seq<u8>, Seq<char>)>) -> Set<(Seq<u8>, Seq<char>)> {
    Set::new(|e: (Seq<u8>, Seq<char>)| errors.contains(e))
}

proof fn lemma_more_errors(errors: Seq<(Seq<u8>, Seq<char>)>, e: (Seq<u8>, Seq<char>))
    ensures
        error_set(errors.push(e)) == error_set(errors).insert(e),
{
    let more = errors.push(e);
    assert forall|x: (Seq<u8>, Seq<char>)| more.contains(x) <==> errors.contains(x) || x == e by {
        if errors.contains(x) {
            let i = choose|i: int| 0 <= i < errors.len() && errors[i] == x;
            assert(more[i] == x);
        }
        assert(more[errors.len() as int] == e);
        if more.contains(x) && x != e {
            let i = choose|i: int| 0 <= i < more.len() && more[i] == x;
            assert(errors[i] == x);
        }
    }
    assert(error_set(more) =~= error_set(errors).insert(e));
}

proof fn lemma_placed_error(
    before: Seq<BulkStoreError>,
    after: Seq<BulkStoreError>,
    e: BulkStoreError,
)
    requires
        sort::has_place(before, e) ==> after == before,
        !sort::has_place(before, e) ==> exists|i: int|
            0 <= i <= before.len() && after == #[trigger] before.insert(i, e),
    ensures
        error_set(error_views(after)) == error_set(error_views(before)).insert(e@),
{
    let old_set = error_set(error_views(before));
    let new_set = error_set(error_views(after));
    if sort::has_place(before, e) {
        let i = choose|i: int|
            0 <= i < before.len() && sort::same_place(#[trigger] before[i], e);
        lemma_error_at_most_total(before[i]@, e@);
        assert(error_views(before)[i] == e@);
        assert(new_set =~= old_set.insert(e@));
    } else {
        let n = choose|n: int| 0 <= n <= before.len() && after == #[trigger] before.insert(n, e);
        let a = error_views(before);
        let b = error_views(after);
        assert(b =~= a.insert(n, e@));
        assert forall|x: (Seq<u8>, Seq<char>)| b.contains(x) <==> a.contains(x) || x == e@ by {
            if a.contains(x) {
                let i = choose|i: int| 0 <= i < a.len() && a[i] == x;
                if i < n {
                    assert(b[i] == x);
                } else {
                    assert(b[i + 1] == x);
                }
            }
            assert(b[n] == e@);
            if b.contains(x) && x != e@ {
                let i = choose|i: int| 0 <= i < b.len() && b[i] == x;
                if i < n {
                    assert(a[i] == x);
                } else {
                    assert(a[i - 1] == x);
                }
            }
        }
        assert(new_set =~= old_set.insert(e@));
    }
}

/// The keys of a list.
pub open spec fn key_set(keys: Seq<Key>) -> Set<Seq<u8>> {
    Set::new(|k: Seq<u8>| exists|i: int| 0 <= i < keys.len() && (#[trigger] keys[i])@ == k)
}

fn collect_keys(keys: Vec<Key>) -> (r: KeySet)
    ensures
        r@ == key_set(keys@),
{
    let ghost all = keys@;
    let mut rest: Vec<Key> = keys;
    let mut r = KeySet::new();
    let ghost mut n: int = 0;
    assert(r@ =~= key_set(all.take(0)));
    while rest.len() > 0
        invariant
            0 <= n <= all.len(),
            rest@ == all.skip(n),
            r@ == key_set(all.take(n)),
        decreases rest.len(),
    {
        let ghost before = r@;
        let key = rest.remove(0);
        assert(key == all[n]);
        r.insert(key);
        proof {
            let more = all.take(n + 1);
            assert forall|k: Seq<u8>| before.insert(key@).contains(k) == key_set(more).contains(
                k,
            ) by {
                if before.contains(k) {
                    let i = choose|i: int| 0 <= i < n && (#[trigger] all.take(n)[i])@ == k;
                    assert(more[i]@ == k);
                }
                if k == key@ {
                    assert(more[n]@ == k);
                }
                if key_set(more).contains(k) {
                    let i = choose|i: int| 0 <= i < more.len() && (#[trigger] more[i])@ == k;
                    if i < n {
                        assert(all.take(n)[i]@ == k);
                    }
                }
            }
            assert(r@ =~= key_set(more));
            assert(rest@ =~= all.skip(n + 1));
            n = n + 1;
        }
    }
    assert(all.take(n) =~= all);
    r
}

/// Whether content has to be uploaded, given what the cache says of it.
pub open spec fn is_uploaded(exists: Option<bool>) -> bool {
    exists != Some(true)
}

impl CourierCas {
    /// The key of some content, and whether it has to be uploaded. It has not where
    /// the cache says that it is there; a cache that does not say is taken not to
    /// have it.
    pub fn store(content: &Vec<u8>, exists: Option<bool>) -> (r: (Key, bool))
        ensures
            r.0@ == hash::blake3_digest(content@),
            r.1 == (exists != Some(true)),
            r.1 == is_uploaded(exists),
    {
        let known = match exists {
            Some(b) => b,
            None => false,
        };
        (Key::from_buffer(content), !known)
    }

    /// Content that has to be there.
    pub fn must_get(found: Option<Vec<u8>>) -> (r: Result<Vec<u8>, MissingKey>)
        ensures
            match r {
                Ok(content) => found == Some(content),
                Err(_) => found is None,
            },
    {
        match found {
            Some(content) => Ok(content),
            None => Err(MissingKey),
        }
    }

    /// What came of storing many pieces of content. The same error is kept once, and
    /// errors are in the order of their keys, and for one key in that of their reasons.
    pub fn store_bulk(response: CasBulkWriteResponse) -> (r: BulkStoreResult)
        ensures
            r.written@ == key_set(response.written@),
            r.skipped@ == key_set(response.skipped@),
            sort::is_increasing(r.errors@),
            error_set(error_views(r.errors@)) == error_set(answer_views(response.errors@)),
    {
        let ghost all = response.errors@;
        let ghost want = answer_views(all);
        let mut rest = response.errors;
        let mut errors: Vec<BulkStoreError> = Vec::new();
        let ghost mut n: int = 0;
        assert(error_set(error_views(errors@)) =~= error_set(want.take(0)));
        while rest.len() > 0
            invariant
                0 <= n <= all.len(),
                want == answer_views(all),
                rest@ == all.skip(n),
                sort::is_increasing(errors@),
                error_set(error_views(errors@)) == error_set(want.take(n)),
            decreases rest.len(),
        {
            let ghost before = errors@;
            let item = rest.remove(0);
            assert(item == all[n]);
            let error = BulkStoreError { key: item.key, error: item.error };
            sort::place_once(&mut errors, error);
            proof {
                lemma_placed_error(before, errors@, error);
                assert(want.take(n + 1) =~= want.take(n).push(error@));
                lemma_more_errors(want.take(n), error@);
                assert(rest@ =~= all.skip(n + 1));
                n = n + 1;
            }
        }
        assert(want.take(n) =~= want);
        BulkStoreResult {
            written: collect_keys(response.written),
            skipped: collect_keys(response.skipped),
            errors,
        }
    }
}

/// Errors are in the order of their keys, and for one key in that of their reasons.
pub proof fn law_errors_are_ordered_by_keys(a: (Seq<u8>, Seq<char>), b: (Seq<u8>, Seq<char>))
    ensures
        a.0 == b.0 ==> (error_at_most(a, b) <==> text::at_most(a.1, b.1)),
        a.0 != b.0 ==> (error_at_most(a, b) <==> hash::bytes_at_most(a.0, b.0)),
        error_at_most(a, b) && error_at_most(b, a) <==> a == b,
{
    lemma_error_at_most_total(a, b);
}

/// The keys and the errors of a list are those that stand in it, and no others.
pub proof fn law_lists_hold_what_stands_in_them(
    keys: Seq<Key>,
    k: Seq<u8>,
    errors: Seq<(Seq<u8>, Seq<char>)>,
    e: (Seq<u8>, Seq<char>),
)
    ensures
        key_set(keys).contains(k) <==> exists|i: int|
            0 <= i < keys.len() && (#[trigger] keys[i])@ == k,
        error_set(errors).contains(e) <==> exists|i: int|
            0 <= i < errors.len() && #[trigger] errors[i] == e,
{
    if error_set(errors).contains(e) {
        let i = choose|i: int| 0 <= i < errors.len() && errors[i] == e;
        assert(errors[i] == e);
    }
}

/// Content is uploaded unless the cache says that it has it.
pub proof fn law_content_is_uploaded_unless_there(exists: Option<bool>)
    ensures
        exists matches Some(there) ==> is_uploaded(exists) == !there,
        exists is None ==> is_uploaded(exists),
{
}

} // verus!
