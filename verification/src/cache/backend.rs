//! What the kinds of storage have in common.

use vstd::prelude::*;
use vstd::string::*;

use crate::hash::{Key, KeySet};

verus! {

/// What came of storing many pieces of content.
#[derive(Debug)]
pub struct BulkStoreResult {
    /// The keys of content that was written.
    pub written: KeySet,
    /// The keys of content that was there before.
    pub skipped: KeySet,
    /// The keys of content that could not be written, with the reasons.
    pub errors: Vec<(Key, String)>,
}

/// Errors in terms of bytes and characters.
pub open spec fn error_views(errors: Seq<(Key, String)>) -> Seq<(Seq<u8>, Seq<char>)> {
    Seq::new(errors.len(), |i: int| (errors[i].0@, errors[i].1@))
}

/// What is known of many pieces of content after one more: the keys of those written and
/// those there before, and the errors.
pub open spec fn recorded(
    written: Set<Seq<u8>>,
    skipped: Set<Seq<u8>>,
    errors: Seq<(Key, String)>,
    key: Key,
    outcome: Result<bool, String>,
) -> (Set<Seq<u8>>, Set<Seq<u8>>, Seq<(Key, String)>) {
    match outcome {
        Ok(true) => (written.insert(key@), skipped, errors),
        Ok(false) => (written, skipped.insert(key@), errors),
        Err(e) => (written, skipped, errors.push((key, e))),
    }
}

impl BulkStoreResult {
    /// Nothing was stored yet.
    pub fn new() -> (r: BulkStoreResult)
        ensures
            r.written@ == Set::<Seq<u8>>::empty(),
            r.skipped@ == Set::<Seq<u8>>::empty(),
            error_views(r.errors@) == Seq::<(Seq<u8>, Seq<char>)>::empty(),
    {
        let r = BulkStoreResult { written: KeySet::new(), skipped: KeySet::new(), errors: Vec::new() };
        assert(error_views(r.errors@) =~= Seq::empty());
        r
    }

    /// Takes down what came of storing one piece of content: whether it was written
    /// or there before, or why it could not be written.
    pub fn record(&mut self, key: Key, outcome: Result<bool, String>)
        ensures
            (final(self).written@, final(self).skipped@, final(self).errors@) == recorded(
                old(self).written@,
                old(self).skipped@,
                old(self).errors@,
                key,
                outcome,
            ),
            match outcome {
                Ok(true) => {
                    &&& final(self).written@ == old(self).written@.insert(key@)
                    &&& final(self).skipped@ == old(self).skipped@
                    &&& final(self).errors@ == old(self).errors@
                },
                Ok(false) => {
                    &&& final(self).written@ == old(self).written@
                    &&& final(self).skipped@ == old(self).skipped@.insert(key@)
                    &&& final(self).errors@ == old(self).errors@
                },
                Err(e) => {
                    &&& final(self).written@ == old(self).written@
                    &&& final(self).skipped@ == old(self).skipped@
                    &&& final(self).errors@ == old(self).errors@.push((key, e))
                },
            },
    {
        match outcome {
            Ok(true) => {
                let _ = self.written.insert(key);
            },
            Ok(false) => {
                let _ = self.skipped.insert(key);
            },
            Err(e) => {
                self.errors.push((key, e));
            },
        }
    }
}

/// Each outcome is taken down in one place: what was written among the keys written, what was
/// there before among the keys skipped, and what failed behind the other errors. Nothing that
/// was taken down before is lost.
pub proof fn law_outcomes_are_taken_down_once(
    written: Set<Seq<u8>>,
    skipped: Set<Seq<u8>>,
    errors: Seq<(Key, String)>,
    key: Key,
    outcome: Result<bool, String>,
)
    ensures
        ({
            let r = recorded(written, skipped, errors, key, outcome);
            &&& forall|k: Seq<u8>| #[trigger]
                r.0.contains(k) <==> written.contains(k) || (outcome == Ok::<bool, String>(true)
                    && k == key@)
            &&& forall|k: Seq<u8>| #[trigger]
                r.1.contains(k) <==> skipped.contains(k) || (outcome == Ok::<bool, String>(false)
                    && k == key@)
            &&& outcome is Ok ==> r.2 == errors
            &&& outcome matches Err(e) ==> r.2.len() == errors.len() + 1 && r.2.last() == (key, e)
                && r.2.drop_last() == errors
        }),
{
}

} // verus!
