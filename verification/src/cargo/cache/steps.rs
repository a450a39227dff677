//! What a restore makes of each unit, and of the units after it.
//!
//! The fingerprint of a unit holds the fingerprints of its dependencies. Cargo takes a
//! restored unit as fresh only where these are the ones that the dependencies have on
//! this machine.

use vstd::prelude::*;

use crate::cargo::cache::restore;
use crate::cargo::cache::restore::{RestoreError, RestoreSessionView, RestoreStepView};
use crate::cargo::fingerprint;
use crate::cargo::fingerprint::RewriteError;
use crate::cargo::workspace;
use crate::cargo::workspace::Workspace;
use crate::hash;
use crate::path;

verus! {

/// A unit that the cache returned and that is on disk is kept. From then on the
/// replacement that is known for the hash of its cached fingerprint is the fingerprint
/// that was read from disk, and every other replacement stays. All its files are touched.
/// Without that fingerprint the step fails.
pub proof fn law_kept_units_are_known_as_they_are_on_disk(
    ws: Workspace,
    s: RestoreSessionView,
    local: fingerprint::FingerprintView,
)
    requires
        s.next < s.units.len(),
        ({
            let h = s.units[s.next as int].info().unit_hash;
            !s.incomplete.contains(h) && s.saved.contains_key(h) && s.on_disk.contains(h)
        }),
    ensures
        ({
            let unit = s.units[s.next as int];
            let h = unit.info().unit_hash;
            let profile = match unit.info().target_arch {
                None => path::join(ws.build_dir@, ws.profile@),
                Some(triple) => path::join(path::join(ws.build_dir@, triple), ws.profile@),
            };
            let replaced = fingerprint::hash_of(s.saved[h].fingerprint());
            &&& restore::next_step(ws, s, None) == Err::<
                (RestoreSessionView, RestoreStepView),
                RestoreError,
            >(RestoreError::NoLocalFingerprint)
            &&& restore::next_step(ws, s, Some(local)) matches Ok((t, step)) && {
                &&& t.known.contains_key(replaced)
                &&& t.known[replaced] == local
                &&& forall|x: u64| #[trigger]
                    t.known.contains_key(x) <==> s.known.contains_key(x) || x == replaced
                &&& forall|x: u64|
                    x != replaced && s.known.contains_key(x) ==> #[trigger] t.known[x]
                        == s.known[x]
                &&& t.restored == s.restored
                &&& t.next == s.next + 1
                &&& step == (RestoreStepView::Kept {
                    touch: unit.touched(profile),
                    mtime: s.next as u64,
                })
            }
        }),
{
}

/// A unit that the cache did not return is left as it is. If it is on disk all its files
/// are touched. A unit that is left out is not touched. Either way no fingerprint becomes
/// known, and nothing is restored.
pub proof fn law_other_units_are_left_as_they_are(
    ws: Workspace,
    s: RestoreSessionView,
    local: Option<fingerprint::FingerprintView>,
)
    requires
        s.next < s.units.len(),
        ({
            let h = s.units[s.next as int].info().unit_hash;
            s.incomplete.contains(h) || !s.saved.contains_key(h)
        }),
    ensures
        ({
            let unit = s.units[s.next as int];
            let h = unit.info().unit_hash;
            let profile = match unit.info().target_arch {
                None => path::join(ws.build_dir@, ws.profile@),
                Some(triple) => path::join(path::join(ws.build_dir@, triple), ws.profile@),
            };
            restore::next_step(ws, s, local) matches Ok((t, step)) && {
                &&& t.known == s.known
                &&& t.restored == s.restored
                &&& t.saved == s.saved
                &&& t.next == s.next + 1
                &&& s.incomplete.contains(h) ==> step is Incomplete
                &&& !s.incomplete.contains(h) && s.on_disk.contains(h) ==> step == (
                RestoreStepView::Missing {
                    touch: Some(unit.touched(profile)),
                    mtime: s.next as u64,
                })
                &&& !s.incomplete.contains(h) && !s.on_disk.contains(h) ==> (
                step matches RestoreStepView::Missing { touch, .. } && touch is None)
            }
        }),
{
}

/// A unit that the cache returned and that is not on disk is restored, with a fingerprint
/// for this machine: its path is that of the source file here, and the fingerprint of
/// every dependency has the hash of the one that is known as its replacement. Every other
/// field is as it was saved, and the hash that the fingerprint carries, and that is
/// written beside it, is the one that its fields give. From then on it is known as the
/// replacement of the cached one.
pub proof fn law_restored_units_have_fingerprints_for_this_machine(
    ws: Workspace,
    s: RestoreSessionView,
    local: Option<fingerprint::FingerprintView>,
)
    requires
        s.next < s.units.len(),
        ({
            let h = s.units[s.next as int].info().unit_hash;
            !s.incomplete.contains(h) && s.saved.contains_key(h) && !s.on_disk.contains(h)
        }),
    ensures
        ({
            let unit = s.units[s.next as int];
            let h = unit.info().unit_hash;
            let profile = match unit.info().target_arch {
                None => path::join(ws.build_dir@, ws.profile@),
                Some(triple) => path::join(path::join(ws.build_dir@, triple), ws.profile@),
            };
            let cached = s.saved[h].fingerprint();
            let replaced = fingerprint::hash_of(cached);
            let unset = !(unit is BuildScriptExecution) && cached.path == 0;
            let unknown = exists|k: int|
                0 <= k < cached.deps.len() && !s.known.contains_key(
                    #[trigger] fingerprint::hash_of(cached.deps[k].fingerprint),
                );
            match restore::next_step(ws, s, local) {
                Err(e) => {
                    ||| unset && e == RestoreError::Rewrite(RewriteError::UnsetPath)
                    ||| !unset && unknown && e == RestoreError::Rewrite(
                        RewriteError::UnknownDependency,
                    )
                    ||| !unset && !unknown && (unit.fingerprint_hash_file() matches Err(why) && e
                        == RestoreError::UnitFile(why))
                },
                Ok((t, step)) => {
                    &&& !unset
                    &&& !unknown
                    &&& t.next == s.next + 1
                    &&& step matches RestoreStepView::Restore {
                        mtime,
                        hash_file,
                        hash_text,
                        json_file,
                        fingerprint: g,
                        files,
                    } && {
                        &&& mtime == s.next as u64
                        &&& unit.fingerprint_hash_file() matches Ok(file) && hash_file
                            == path::join(profile, file)
                        &&& unit.fingerprint_json_file() matches Ok(file) && json_file
                            == path::join(profile, file)
                        &&& hash_text == hash::hex_text(
                            vstd::bytes::spec_u64_to_le_bytes(fingerprint::hash_of(g)),
                        )
                        &&& g.memoized_hash == Some(
                            fingerprint::hash_of(
                                fingerprint::FingerprintView { memoized_hash: None, ..g },
                            ),
                        )
                        &&& unit matches workspace::UnitPlanView::LibraryCrate(p) ==> g.path
                            == fingerprint::path_hash(p.src_path)
                        &&& unit matches workspace::UnitPlanView::BuildScriptCompilation(p)
                            ==> g.path == fingerprint::path_hash(p.src_path)
                        &&& unit is BuildScriptExecution ==> g.path == cached.path
                        &&& g == (fingerprint::FingerprintView {
                            path: g.path,
                            deps: g.deps,
                            memoized_hash: g.memoized_hash,
                            ..cached
                        })
                        &&& g.deps.len() == cached.deps.len()
                        &&& forall|k: int|
                            0 <= k < cached.deps.len() ==> {
                                &&& fingerprint::hash_of((#[trigger] g.deps[k]).fingerprint)
                                    == fingerprint::hash_of(
                                    s.known[fingerprint::hash_of(cached.deps[k].fingerprint)],
                                )
                                &&& g.deps[k] == (fingerprint::DepFingerprintView {
                                    fingerprint: g.deps[k].fingerprint,
                                    ..cached.deps[k]
                                })
                            }
                        &&& t.known.contains_key(replaced)
                        &&& t.known[replaced] == g
                        &&& forall|x: u64|
                            x != replaced && s.known.contains_key(x) ==> #[trigger] t.known[x]
                                == s.known[x]
                        &&& forall|x: u64| #[trigger]
                            t.known.contains_key(x) <==> s.known.contains_key(x) || x == replaced
                        &&& files == restore::unit_files(ws, unit, s.saved[h], s.next as u64)
                        &&& files is Ok ==> t.restored == s.restored.insert(h)
                        &&& files is Err ==> t.restored == s.restored
                    }
                },
            }
        }),
{
    let unit = s.units[s.next as int];
    let cached = s.saved[unit.info().unit_hash].fingerprint();
    let path_h = match unit.src_path() {
        Some(p) => Some(fingerprint::path_hash(p)),
        None => None,
    };
    let g = fingerprint::rewritten(cached, path_h, s.known);
    fingerprint::law_rewritten_is_consistent(cached, path_h, s.known);
    fingerprint::law_asking_for_the_hash_keeps_it(
        fingerprint::relocated(cached, path_h, s.known),
    );
    workspace::law_fingerprint_json_is_hash_file_with_extension(unit);
    assert forall|k: int| 0 <= k < cached.deps.len() implies {
        &&& fingerprint::hash_of((#[trigger] g.deps[k]).fingerprint) == fingerprint::hash_of(
            s.known[fingerprint::hash_of(cached.deps[k].fingerprint)],
        )
        &&& g.deps[k] == (fingerprint::DepFingerprintView {
            fingerprint: g.deps[k].fingerprint,
            ..cached.deps[k]
        })
    } by {
        fingerprint::law_asking_for_the_hash_keeps_it(
            s.known[fingerprint::hash_of(cached.deps[k].fingerprint)],
        );
    }
}

/// The state after some steps, each with the fingerprint that its unit has on disk, where
/// that was read. `None` where a step fails.
pub open spec fn after_steps(
    ws: Workspace,
    s: RestoreSessionView,
    locals: Seq<Option<fingerprint::FingerprintView>>,
) -> Option<RestoreSessionView>
    decreases locals.len(),
{
    if locals.len() == 0 {
        Some(s)
    } else {
        match after_steps(ws, s, locals.drop_last()) {
            None => None,
            Some(m) => match restore::next_step(ws, m, locals.last()) {
                Ok((t, _)) => Some(t),
                Err(_) => None,
            },
        }
    }
}

/// After some steps the units are the same, what is left of the saved units is as it was,
/// and a replacement that became known in the first step stays.
proof fn lemma_replacements_stay(
    ws: Workspace,
    s: RestoreSessionView,
    locals: Seq<Option<fingerprint::FingerprintView>>,
    x: u64,
)
    requires
        0 < locals.len() <= s.units.len() - s.next,
        after_steps(ws, s, locals) is Some,
        forall|i: int|
            s.next < i < s.next + locals.len() && s.saved.contains_key(
                (#[trigger] s.units[i]).info().unit_hash,
            ) ==> fingerprint::hash_of(s.saved[s.units[i].info().unit_hash].fingerprint()) != x,
    ensures
        ({
            let u = after_steps(ws, s, locals)->0;
            &&& restore::next_step(ws, s, locals[0]) matches Ok((t, _)) && (
            t.known.contains_key(x) ==> u.known.contains_key(x) && u.known[x] == t.known[x])
            &&& u.units == s.units
            &&& u.on_disk == s.on_disk
            &&& u.incomplete == s.incomplete
            &&& u.next == s.next + locals.len()
            &&& forall|h: Seq<char>| #[trigger]
                u.saved.contains_key(h) ==> s.saved.contains_key(h) && u.saved[h] == s.saved[h]
        }),
    decreases locals.len(),
{
    let front = locals.drop_last();
    if front.len() == 0 {
        assert(after_steps(ws, s, front) == Some(s));
        assert(locals.last() == locals[0]);
    } else {
        lemma_replacements_stay(ws, s, front, x);
        assert(front[0] == locals[0]);
        let m = after_steps(ws, s, front)->0;
        let unit = m.units[m.next as int];
        assert(unit == s.units[(s.next + front.len()) as int]);
    }
}

/// Every dependency fingerprint of a unit that is restored has the hash that the
/// dependency has on this machine. The dependency is a unit that a restore dealt with in
/// an earlier step: if it is on disk, the hash is that of the fingerprint that was read
/// from disk, and else that of the fingerprint that was written for it. The two units are
/// any number of steps apart, and no unit between them was saved with the fingerprint of
/// the dependency.
pub proof fn law_restored_units_depend_on_what_is_here(
    ws: Workspace,
    s: RestoreSessionView,
    locals: Seq<Option<fingerprint::FingerprintView>>,
    last: Option<fingerprint::FingerprintView>,
    k: int,
)
    requires
        0 < locals.len() < s.units.len() - s.next,
        after_steps(ws, s, locals) is Some,
        ({
            let first = s.units[s.next as int].info().unit_hash;
            let u = after_steps(ws, s, locals)->0;
            let later = s.units[(s.next + locals.len()) as int].info().unit_hash;
            let cached = u.saved[later].fingerprint();
            &&& !s.incomplete.contains(first) && s.saved.contains_key(first)
            &&& !s.incomplete.contains(later) && u.saved.contains_key(later) && !s.on_disk.contains(
                later,
            )
            &&& restore::next_step(ws, u, last) is Ok
            &&& 0 <= k < cached.deps.len()
            &&& fingerprint::hash_of(cached.deps[k].fingerprint) == fingerprint::hash_of(
                s.saved[first].fingerprint(),
            )
            &&& forall|i: int|
                s.next < i < s.next + locals.len() && s.saved.contains_key(
                    (#[trigger] s.units[i]).info().unit_hash,
                ) ==> fingerprint::hash_of(s.saved[s.units[i].info().unit_hash].fingerprint())
                    != fingerprint::hash_of(s.saved[first].fingerprint())
        }),
    ensures
        ({
            let first = s.units[s.next as int].info().unit_hash;
            let u = after_steps(ws, s, locals)->0;
            (restore::next_step(ws, u, last)->Ok_0).1 matches RestoreStepView::Restore {
                fingerprint: g,
                ..
            } && {
                &&& s.on_disk.contains(first) ==> (locals[0] matches Some(local)
                    && fingerprint::hash_of(g.deps[k].fingerprint) == fingerprint::hash_of(local))
                &&& !s.on_disk.contains(first) ==> (restore::next_step(
                    ws,
                    s,
                    locals[0],
                ) matches Ok((_, RestoreStepView::Restore { fingerprint: f, .. }))
                    && fingerprint::hash_of(g.deps[k].fingerprint) == fingerprint::hash_of(f))
            }
        }),
{
    let first = s.units[s.next as int].info().unit_hash;
    let x = fingerprint::hash_of(s.saved[first].fingerprint());
    let u = after_steps(ws, s, locals)->0;
    lemma_replacements_stay(ws, s, locals, x);
    if s.on_disk.contains(first) {
        match locals[0] {
            Some(local) => law_kept_units_are_known_as_they_are_on_disk(ws, s, local),
            None => {
                assert(restore::next_step(ws, s, locals[0]) is Err);
            },
        }
    } else {
        law_restored_units_have_fingerprints_for_this_machine(ws, s, locals[0]);
    }
    law_restored_units_have_fingerprints_for_this_machine(ws, u, last);
}

} // verus!
