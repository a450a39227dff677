//! Cargo fingerprints, and how they are rewritten for another machine.
//!
//! Fingerprints are not relocatable: the `path` field hashes an absolute path,
//! and the hash of a fingerprint enters the fingerprints of its dependents. A
//! fingerprint that moves to another machine therefore gets a new `path` and new
//! dependency fingerprints, and with them a new hash.

use std::collections::HashMap;
use vstd::prelude::*;
use vstd::string::*;

use crate::hash;
use crate::path::{AbsFilePath, RelFilePath};
use crate::stable_hash;
use crate::stable_hash::StableHasher;
use crate::text;

verus! {

broadcast use vstd::std_specs::hash::group_hash_axioms;

/// An input of a unit that is not the output of another unit.
#[derive(Debug)]
pub enum LocalFingerprint {
    /// An opaque string that is hashed as it is.
    Precalculated(String),
    /// The dep-info file that Cargo wrote for a crate, relative to the target
    /// directory, and whether it lists checksums.
    CheckDepInfo { dep_info: String, checksum: bool },
    /// The output of a build script, and the paths of its `rerun-if-changed`
    /// lines.
    RerunIfChanged { output: String, paths: Vec<String> },
    /// A variable of a `rerun-if-env-changed` line, with its value.
    RerunIfEnvChanged { var: String, val: Option<String> },
}

/// A [`LocalFingerprint`] in terms of characters.
pub enum LocalFingerprintView {
    Precalculated(Seq<char>),
    CheckDepInfo { dep_info: Seq<char>, checksum: bool },
    RerunIfChanged { output: Seq<char>, paths: Seq<Seq<char>> },
    RerunIfEnvChanged { var: Seq<char>, val: Option<Seq<char>> },
}

impl View for LocalFingerprint {
    type V = LocalFingerprintView;

    open spec fn view(&self) -> LocalFingerprintView {
        match self {
            LocalFingerprint::Precalculated(s) => LocalFingerprintView::Precalculated(s@),
            LocalFingerprint::CheckDepInfo { dep_info, checksum } => {
                LocalFingerprintView::CheckDepInfo { dep_info: dep_info@, checksum: *checksum }
            },
            LocalFingerprint::RerunIfChanged { output, paths } => {
                LocalFingerprintView::RerunIfChanged { output: output@, paths: text::views(paths@) }
            },
            LocalFingerprint::RerunIfEnvChanged { var, val } => {
                LocalFingerprintView::RerunIfEnvChanged {
                    var: var@,
                    val: match val {
                        Some(s) => Some(s@),
                        None => None,
                    },
                }
            },
        }
    }
}

/// A Cargo fingerprint.
#[derive(Debug)]
pub struct Fingerprint {
    /// Hash of the version of `rustc`.
    pub rustc: u64,
    /// Sorted list of the cfg features that are enabled.
    pub features: String,
    /// Sorted list of the cfg features that are declared.
    pub declared_features: String,
    /// Hash of the target.
    pub target: u64,
    /// Hash of the profile, the compile mode and extra flags.
    pub profile: u64,
    /// Hash of the path to the base source file. Zero where it was never set.
    pub path: u64,
    /// Fingerprints of dependencies.
    pub deps: Vec<DepFingerprint>,
    /// The inputs that affect this unit.
    pub local: Vec<LocalFingerprint>,
    /// The hash of this fingerprint, where it is already known.
    pub memoized_hash: Option<u64>,
    /// The value of `RUSTFLAGS` or `RUSTDOCFLAGS`.
    pub rustflags: Vec<String>,
    /// Hash of settings that change how things are compiled.
    pub config: u64,
    /// The target that `rustc` compiles for.
    pub compile_kind: u64,
}

/// A dependency of a unit in its fingerprint.
#[derive(Debug)]
pub struct DepFingerprint {
    /// The hash of the package id of the dependency.
    pub pkg_id: u64,
    /// The crate name by which the dependency is used.
    pub name: String,
    /// Whether the dependency is public.
    pub public: bool,
    /// The fingerprint of the dependency.
    pub fingerprint: Fingerprint,
}

/// A [`Fingerprint`] in terms of characters and sequences.
#[verifier::ext_equal]
pub struct FingerprintView {
    pub rustc: u64,
    pub features: Seq<char>,
    pub declared_features: Seq<char>,
    pub target: u64,
    pub profile: u64,
    pub path: u64,
    pub deps: Seq<DepFingerprintView>,
    pub local: Seq<LocalFingerprintView>,
    pub memoized_hash: Option<u64>,
    pub rustflags: Seq<Seq<char>>,
    pub config: u64,
    pub compile_kind: u64,
}

/// A [`DepFingerprint`] in terms of characters and sequences.
#[verifier::ext_equal]
pub struct DepFingerprintView {
    pub pkg_id: u64,
    pub name: Seq<char>,
    pub public: bool,
    pub fingerprint: FingerprintView,
}

/// The views of a sequence of local fingerprints.
pub open spec fn local_views(local: Seq<LocalFingerprint>) -> Seq<LocalFingerprintView> {
    Seq::new(local.len(), |i: int| local[i]@)
}

/// The views of a sequence of dependencies.
pub open spec fn dep_views(deps: Seq<DepFingerprint>) -> Seq<DepFingerprintView>
    decreases deps,
{
    if deps.len() == 0 {
        Seq::empty()
    } else {
        dep_views(deps.drop_last()).push(
            DepFingerprintView {
                pkg_id: deps.last().pkg_id,
                name: deps.last().name@,
                public: deps.last().public,
                fingerprint: deps.last().fingerprint.model(),
            },
        )
    }
}

impl Fingerprint {
    /// The fingerprint in terms of characters and sequences.
    pub open spec fn model(&self) -> FingerprintView
        decreases self,
    {
        FingerprintView {
            rustc: self.rustc,
            features: self.features@,
            declared_features: self.declared_features@,
            target: self.target,
            profile: self.profile,
            path: self.path,
            deps: dep_views(self.deps@),
            local: local_views(self.local@),
            memoized_hash: self.memoized_hash,
            rustflags: text::views(self.rustflags@),
            config: self.config,
            compile_kind: self.compile_kind,
        }
    }
}

impl View for Fingerprint {
    type V = FingerprintView;

    open spec fn view(&self) -> FingerprintView {
        self.model()
    }
}

impl View for DepFingerprint {
    type V = DepFingerprintView;

    open spec fn view(&self) -> DepFingerprintView {
        DepFingerprintView {
            pkg_id: self.pkg_id,
            name: self.name@,
            public: self.public,
            fingerprint: self.fingerprint@,
        }
    }
}

pub proof fn lemma_dep_views(deps: Seq<DepFingerprint>)
    ensures
        dep_views(deps).len() == deps.len(),
        forall|i: int| 0 <= i < deps.len() ==> #[trigger] dep_views(deps)[i] == deps[i]@,
    decreases deps.len(),
{
    if deps.len() > 0 {
        let t = deps.drop_last();
        lemma_dep_views(t);
        assert forall|i: int| 0 <= i < deps.len() implies #[trigger] dep_views(deps)[i]
            == deps[i]@ by {
            if i < deps.len() - 1 {
                assert(dep_views(deps)[i] == dep_views(t)[i]);
                assert(t[i] == deps[i]);
            }
        }
    }
}

// What is fed to the hasher.

/// `acc` and then a list of strings: its length and each string.
pub open spec fn feed_strs(acc: Seq<u8>, list: Seq<Seq<char>>) -> Seq<u8>
    decreases list.len(),
{
    if list.len() == 0 {
        acc
    } else {
        feed_strs(acc, list.drop_last()) + stable_hash::str_bytes(list.last())
    }
}

/// `acc` and then each path of a list.
pub open spec fn feed_paths(acc: Seq<u8>, list: Seq<Seq<char>>) -> Seq<u8>
    decreases list.len(),
{
    if list.len() == 0 {
        acc
    } else {
        feed_paths(acc, list.drop_last()) + stable_hash::path_bytes(list.last(), usize::BITS)
    }
}

/// `acc` and then a number, as eight bytes.
pub open spec fn feed_u64(acc: Seq<u8>, x: u64) -> Seq<u8> {
    acc + vstd::bytes::spec_u64_to_le_bytes(x)
}

/// `acc` and then a local fingerprint: the number of its variant and its fields.
pub open spec fn feed_local(acc: Seq<u8>, l: LocalFingerprintView) -> Seq<u8> {
    match l {
        LocalFingerprintView::Precalculated(s) => acc.push(0u8) + stable_hash::str_bytes(s),
        LocalFingerprintView::CheckDepInfo { dep_info, checksum } => {
            (acc.push(1u8) + stable_hash::path_bytes(dep_info, usize::BITS)).push(
                if checksum {
                    1u8
                } else {
                    0u8
                },
            )
        },
        LocalFingerprintView::RerunIfChanged { output, paths } => {
            feed_paths(
                feed_u64(
                    acc.push(2u8) + stable_hash::path_bytes(output, usize::BITS),
                    paths.len() as u64,
                ),
                paths,
            )
        },
        LocalFingerprintView::RerunIfEnvChanged { var, val } => {
            let named = acc.push(3u8) + stable_hash::str_bytes(var);
            match val {
                Some(s) => named.push(1u8) + stable_hash::str_bytes(s),
                None => named.push(0u8),
            }
        },
    }
}

/// `acc` and then each local fingerprint of a list.
pub open spec fn feed_locals(acc: Seq<u8>, list: Seq<LocalFingerprintView>) -> Seq<u8>
    decreases list.len(),
{
    if list.len() == 0 {
        acc
    } else {
        feed_local(feed_locals(acc, list.drop_last()), list.last())
    }
}

/// `acc` and then the fields of a fingerprint other than its dependencies.
pub open spec fn feed_fields(acc: Seq<u8>, f: FingerprintView) -> Seq<u8> {
    let a = feed_u64(acc, f.rustc) + stable_hash::str_bytes(f.features)
        + stable_hash::str_bytes(f.declared_features);
    let b = feed_u64(feed_u64(feed_u64(a, f.target), f.path), f.profile);
    let c = feed_locals(feed_u64(b, f.local.len() as u64), f.local);
    let d = feed_u64(feed_u64(c, f.config), f.compile_kind);
    feed_strs(feed_u64(d, f.rustflags.len() as u64), f.rustflags)
}

/// `acc` and then each dependency of a list, with the hash of its fingerprint in
/// place of the fingerprint.
pub open spec fn feed_deps(acc: Seq<u8>, deps: Seq<DepFingerprintView>) -> Seq<u8>
    decreases deps,
{
    if deps.len() == 0 {
        acc
    } else {
        let d = deps.last();
        let named = feed_u64(feed_deps(acc, deps.drop_last()), d.pkg_id) + stable_hash::str_bytes(
            d.name,
        );
        feed_u64(
            named.push(
                if d.public {
                    1u8
                } else {
                    0u8
                },
            ),
            hash_of(d.fingerprint),
        )
    }
}

/// The hash of a fingerprint: the one that it carries, or else that of its fields
/// and its dependencies.
pub open spec fn hash_of(f: FingerprintView) -> u64
    decreases f,
{
    match f.memoized_hash {
        Some(h) => h,
        None => stable_hash::finish_value(
            feed_deps(feed_u64(feed_fields(Seq::empty(), f), f.deps.len() as u64), f.deps),
        ),
    }
}

/// Dependencies whose fingerprints carry their hashes.
pub open spec fn memoized_deps(deps: Seq<DepFingerprintView>) -> Seq<DepFingerprintView>
    decreases deps,
{
    if deps.len() == 0 {
        Seq::empty()
    } else {
        memoized_deps(deps.drop_last()).push(
            DepFingerprintView { fingerprint: memoized(deps.last().fingerprint), ..deps.last() },
        )
    }
}

/// A fingerprint once its hash was asked for. From then on it carries that hash, and so
/// do the fingerprints of its dependencies, of which the hashes were asked for on the
/// way.
pub open spec fn memoized(f: FingerprintView) -> FingerprintView
    decreases f,
{
    match f.memoized_hash {
        Some(_) => f,
        None => FingerprintView {
            deps: memoized_deps(f.deps),
            memoized_hash: Some(hash_of(f)),
            ..f
        },
    }
}

pub proof fn lemma_memoized_deps(deps: Seq<DepFingerprintView>)
    ensures
        memoized_deps(deps).len() == deps.len(),
        forall|i: int|
            0 <= i < deps.len() ==> #[trigger] memoized_deps(deps)[i] == (DepFingerprintView {
                fingerprint: memoized(deps[i].fingerprint),
                ..deps[i]
            }),
    decreases deps.len(),
{
    if deps.len() > 0 {
        let front = deps.drop_last();
        lemma_memoized_deps(front);
        assert forall|i: int| 0 <= i < deps.len() implies #[trigger] memoized_deps(deps)[i] == (
        DepFingerprintView { fingerprint: memoized(deps[i].fingerprint), ..deps[i] }) by {
            if i < front.len() {
                assert(memoized_deps(deps)[i] == memoized_deps(front)[i]);
                assert(front[i] == deps[i]);
            }
        }
    }
}

/// The hash of a path, as it stands in a fingerprint.
pub open spec fn path_hash(p: Seq<char>) -> u64 {
    stable_hash::finish_value(Seq::empty() + stable_hash::path_bytes(p, usize::BITS))
}

fn hash_of_path(path: &str) -> (r: u64)
    ensures
        r == path_hash(path@),
{
    let mut h = StableHasher::new();
    h.hash_path(path);
    h.finish()
}

/// The hash of a path, as it stands in a fingerprint.
pub fn util_hash_u64(path: &AbsFilePath) -> (r: u64)
    ensures
        r == path_hash(path@),
{
    hash_of_path(path.as_str())
}

/// The hash of a path that is relative to `$CARGO_HOME`, as it stands in a saved
/// fingerprint.
pub fn saved_path_hash(path: &RelFilePath) -> (r: u64)
    ensures
        r == path_hash(path@),
{
    hash_of_path(path.as_str())
}

impl LocalFingerprint {
    fn feed(&self, h: &mut StableHasher)
        ensures
            stable_hash::fed(*final(h)) == feed_local(stable_hash::fed(*old(h)), self@),
    {
        match self {
            LocalFingerprint::Precalculated(s) => {
                h.write_isize(0);
                h.hash_str(s.as_str());
            },
            LocalFingerprint::CheckDepInfo { dep_info, checksum } => {
                h.write_isize(1);
                h.hash_path(dep_info.as_str());
                h.write_u8(
                    if *checksum {
                        1
                    } else {
                        0
                    },
                );
            },
            LocalFingerprint::RerunIfChanged { output, paths } => {
                h.write_isize(2);
                h.hash_path(output.as_str());
                h.write_usize(paths.len());
                let ghost acc = stable_hash::fed(*h);
                let ghost all = text::views(paths@);
                let mut i: usize = 0;
                while i < paths.len()
                    invariant
                        i <= paths.len(),
                        all == text::views(paths@),
                        stable_hash::fed(*h) == feed_paths(acc, all.take(i as int)),
                    decreases paths.len() - i,
                {
                    h.hash_path(paths[i].as_str());
                    assert(all.take(i + 1).drop_last() =~= all.take(i as int));
                    i += 1;
                }
                assert(all.take(paths.len() as int) =~= all);
            },
            LocalFingerprint::RerunIfEnvChanged { var, val } => {
                h.write_isize(3);
                h.hash_str(var.as_str());
                match val {
                    Some(s) => {
                        h.write_isize(1);
                        h.hash_str(s.as_str());
                    },
                    None => {
                        h.write_isize(0);
                    },
                }
            },
        }
    }
}

impl Fingerprint {
    /// A fingerprint in which nothing is set.
    pub fn new() -> (r: Fingerprint)
        ensures
            r@ == (FingerprintView {
                rustc: 0,
                features: Seq::empty(),
                declared_features: Seq::empty(),
                target: 0,
                profile: 0,
                path: 0,
                deps: Seq::empty(),
                local: Seq::empty(),
                memoized_hash: None,
                rustflags: Seq::empty(),
                config: 0,
                compile_kind: 0,
            }),
    {
        let r = Fingerprint {
            rustc: 0,
            features: String::new(),
            declared_features: String::new(),
            target: 0,
            profile: 0,
            path: 0,
            deps: Vec::new(),
            local: Vec::new(),
            memoized_hash: None,
            rustflags: Vec::new(),
            config: 0,
            compile_kind: 0,
        };
        assert(r@.deps =~= Seq::empty());
        assert(r@.local =~= Seq::empty());
        assert(r@.rustflags =~= Seq::empty());
        r
    }

    /// Forgets the hash that is carried along, so that the next one is computed
    /// from the fields.
    pub fn clear_memoized(&mut self)
        ensures
            final(self)@ == (FingerprintView { memoized_hash: None, ..old(self)@ }),
    {
        self.memoized_hash = None;
    }

    /// The hash of this fingerprint. It is carried along from then on, and stays the
    /// same until it is cleared, even if fields change.
    pub fn hash_u64(&mut self) -> (r: u64)
        ensures
            r == hash_of(old(self)@),
            final(self)@ == memoized(old(self)@),
        decreases *old(self),
    {
        let ghost before = *self;
        if let Some(s) = self.memoized_hash {
            return s;
        }
        let mut h = StableHasher::new();
        h.write_u64(self.rustc);
        h.hash_str(self.features.as_str());
        h.hash_str(self.declared_features.as_str());
        h.write_u64(self.target);
        h.write_u64(self.path);
        h.write_u64(self.profile);
        h.write_usize(self.local.len());
        let ghost acc = stable_hash::fed(h);
        let ghost locals = local_views(self.local@);
        let mut i: usize = 0;
        while i < self.local.len()
            invariant
                i <= self.local.len(),
                locals == local_views(self.local@),
                stable_hash::fed(h) == feed_locals(acc, locals.take(i as int)),
            decreases self.local.len() - i,
        {
            self.local[i].feed(&mut h);
            assert(locals.take(i + 1).drop_last() =~= locals.take(i as int));
            i += 1;
        }
        assert(locals.take(self.local.len() as int) =~= locals);
        h.write_u64(self.config);
        h.write_u64(self.compile_kind);
        h.write_usize(self.rustflags.len());
        let ghost acc = stable_hash::fed(h);
        let ghost flags = text::views(self.rustflags@);
        let mut i: usize = 0;
        while i < self.rustflags.len()
            invariant
                i <= self.rustflags.len(),
                flags == text::views(self.rustflags@),
                stable_hash::fed(h) == feed_strs(acc, flags.take(i as int)),
            decreases self.rustflags.len() - i,
        {
            h.hash_str(self.rustflags[i].as_str());
            assert(flags.take(i + 1).drop_last() =~= flags.take(i as int));
            i += 1;
        }
        assert(flags.take(self.rustflags.len() as int) =~= flags);
        assert(stable_hash::fed(h) == feed_fields(Seq::empty(), self@));
        h.write_usize(self.deps.len());
        let ghost acc = stable_hash::fed(h);
        let ghost all = self.deps@;
        let ghost deps = dep_views(all);
        proof {
            lemma_dep_views(all);
            lemma_memoized_deps(deps);
        }
        let n: usize = self.deps.len();
        let mut rest: Vec<DepFingerprint> = Vec::new();
        std::mem::swap(&mut self.deps, &mut rest);
        assert(all.skip(0) =~= all);
        let mut i: usize = 0;
        while i < n
            invariant
                i <= n,
                n == all.len(),
                all == before.deps@,
                before == *old(self),
                rest@ == all.skip(i as int),
                deps.len() == n,
                forall|j: int| 0 <= j < n ==> #[trigger] deps[j] == all[j]@,
                *self == (Fingerprint { deps: self.deps, ..before }),
                self.deps.len() == i,
                forall|j: int|
                    0 <= j < i ==> #[trigger] self.deps@[j]@ == (DepFingerprintView {
                        fingerprint: memoized(deps[j].fingerprint),
                        ..deps[j]
                    }),
                stable_hash::fed(h) == feed_deps(acc, deps.take(i as int)),
            decreases n - i,
        {
            let mut dep: DepFingerprint = rest.remove(0);
            assert(dep == all[i as int]);
            assert(rest@ =~= all.skip(i + 1));
            assert(deps[i as int] == dep@);
            h.write_u64(dep.pkg_id);
            h.hash_str(dep.name.as_str());
            h.write_u8(
                if dep.public {
                    1
                } else {
                    0
                },
            );
            assert(decreases_to!(before => before.deps@[i as int].fingerprint));
            h.write_u64(dep.fingerprint.hash_u64());
            self.deps.push(dep);
            assert(deps.take(i + 1).drop_last() =~= deps.take(i as int));
            assert(deps.take(i + 1).last() == deps[i as int]);
            i += 1;
        }
        assert(deps.take(n as int) =~= deps);
        let r: u64 = h.finish();
        self.memoized_hash = Some(r);
        proof {
            lemma_dep_views(self.deps@);
            assert(self@.deps =~= memoized_deps(deps));
        }
        r
    }
}

impl LocalFingerprint {
    /// A copy of this local fingerprint.
    pub fn duplicate(&self) -> (r: LocalFingerprint)
        ensures
            r@ == self@,
    {
        match self {
            LocalFingerprint::Precalculated(s) => LocalFingerprint::Precalculated(s.clone()),
            LocalFingerprint::CheckDepInfo { dep_info, checksum } => {
                LocalFingerprint::CheckDepInfo { dep_info: dep_info.clone(), checksum: *checksum }
            },
            LocalFingerprint::RerunIfChanged { output, paths } => {
                LocalFingerprint::RerunIfChanged {
                    output: output.clone(),
                    paths: text::copy_list(paths),
                }
            },
            LocalFingerprint::RerunIfEnvChanged { var, val } => {
                LocalFingerprint::RerunIfEnvChanged {
                    var: var.clone(),
                    val: match val {
                        Some(s) => Some(s.clone()),
                        None => None,
                    },
                }
            },
        }
    }
}

proof fn lemma_same_dep_views(a: Seq<DepFingerprint>, b: Seq<DepFingerprint>)
    requires
        a.len() == b.len(),
        forall|i: int| 0 <= i < a.len() ==> #[trigger] a[i]@ == b[i]@,
    ensures
        dep_views(a) == dep_views(b),
{
    lemma_dep_views(a);
    lemma_dep_views(b);
    assert forall|i: int| 0 <= i < a.len() implies dep_views(a)[i] == dep_views(b)[i] by {
        assert(dep_views(a)[i] == a[i]@);
        assert(dep_views(b)[i] == b[i]@);
    }
    assert(dep_views(a) =~= dep_views(b));
}

impl Clone for Fingerprint {
    fn clone(&self) -> (r: Self)
        ensures
            r@ == self@,
        decreases self,
    {
        let mut deps: Vec<DepFingerprint> = Vec::new();
        let mut i: usize = 0;
        while i < self.deps.len()
            invariant
                i <= self.deps.len(),
                deps.len() == i,
                forall|j: int| 0 <= j < i ==> #[trigger] deps@[j]@ == self.deps@[j]@,
            decreases self.deps.len() - i,
        {
            let dep = &self.deps[i];
            assert(decreases_to!(self => self.deps@[i as int].fingerprint));
            deps.push(
                DepFingerprint {
                    pkg_id: dep.pkg_id,
                    name: dep.name.clone(),
                    public: dep.public,
                    fingerprint: dep.fingerprint.clone(),
                },
            );
            i += 1;
        }
        let mut local: Vec<LocalFingerprint> = Vec::new();
        let mut i: usize = 0;
        while i < self.local.len()
            invariant
                i <= self.local.len(),
                local.len() == i,
                forall|j: int| 0 <= j < i ==> #[trigger] local@[j]@ == self.local@[j]@,
            decreases self.local.len() - i,
        {
            local.push(self.local[i].duplicate());
            i += 1;
        }
        let r = Fingerprint {
            rustc: self.rustc,
            features: self.features.clone(),
            declared_features: self.declared_features.clone(),
            target: self.target,
            profile: self.profile,
            path: self.path,
            deps,
            local,
            memoized_hash: self.memoized_hash,
            rustflags: text::copy_list(&self.rustflags),
            config: self.config,
            compile_kind: self.compile_kind,
        };
        proof {
            lemma_same_dep_views(r.deps@, self.deps@);
            assert(r@.local =~= self@.local);
        }
        r
    }
}

/// The fingerprints of a map, in terms of characters and sequences.
pub open spec fn known_views(known: Map<u64, Fingerprint>) -> Map<u64, FingerprintView> {
    known.map_values(|f: Fingerprint| f@)
}

/// Whether the fingerprint of every dependency has a replacement.
pub open spec fn deps_known(f: FingerprintView, known: Map<u64, FingerprintView>) -> bool {
    forall|i: int|
        0 <= i < f.deps.len() ==> known.contains_key(#[trigger] hash_of(f.deps[i].fingerprint))
}

/// `f` with another path, and with the replacements of its dependencies.
pub open spec fn relocated(
    f: FingerprintView,
    path: Option<u64>,
    known: Map<u64, FingerprintView>,
) -> FingerprintView {
    FingerprintView {
        path: match path {
            Some(h) => h,
            None => f.path,
        },
        deps: Seq::new(
            f.deps.len(),
            |i: int|
                DepFingerprintView {
                    fingerprint: known[hash_of(f.deps[i].fingerprint)],
                    ..f.deps[i]
                },
        ),
        memoized_hash: None,
        ..f
    }
}

/// A relocated fingerprint that carries its hash.
pub open spec fn rewritten(
    f: FingerprintView,
    path: Option<u64>,
    known: Map<u64, FingerprintView>,
) -> FingerprintView {
    memoized(relocated(f, path, known))
}

/// The replacement of a fingerprint, where one is known, and else the fingerprint.
pub open spec fn replacement(
    f: FingerprintView,
    known: Map<u64, FingerprintView>,
) -> FingerprintView {
    if known.contains_key(hash_of(f)) {
        known[hash_of(f)]
    } else {
        f
    }
}

/// `f` with another path, where it has one, and with the replacements of those of its
/// dependencies that are known.
pub open spec fn detached(
    f: FingerprintView,
    path: Option<u64>,
    known: Map<u64, FingerprintView>,
) -> FingerprintView {
    FingerprintView {
        path: match path {
            Some(h) if f.path != 0 => h,
            _ => f.path,
        },
        deps: Seq::new(
            f.deps.len(),
            |i: int|
                DepFingerprintView {
                    fingerprint: replacement(f.deps[i].fingerprint, known),
                    ..f.deps[i]
                },
        ),
        memoized_hash: None,
        ..f
    }
}

/// A fingerprint as it is saved: it does not depend on the machine.
pub open spec fn portable(
    f: FingerprintView,
    path: Option<u64>,
    known: Map<u64, FingerprintView>,
) -> FingerprintView {
    memoized(detached(f, path, known))
}

/// Why a fingerprint could not be rewritten.
#[derive(Debug, Clone, Copy, PartialEq, Eq, Structural)]
pub enum RewriteError {
    /// A path was given for a fingerprint whose path was never set.
    UnsetPath,
    /// A dependency has a fingerprint of which no replacement is known.
    UnknownDependency,
}

/// That the hash of a fingerprint was asked for makes no difference when it is
/// rewritten.
pub proof fn lemma_memoized_is_relocated_alike(
    f: FingerprintView,
    known: Map<u64, FingerprintView>,
)
    ensures
        deps_known(memoized(f), known) == deps_known(f, known),
        forall|path: Option<u64>|
            #![trigger relocated(memoized(f), path, known)]
            relocated(memoized(f), path, known) == relocated(f, path, known),
{
    let g = memoized(f);
    if f.memoized_hash is None {
        lemma_memoized_deps(f.deps);
        assert forall|i: int| 0 <= i < f.deps.len() implies hash_of(
            (#[trigger] g.deps[i]).fingerprint,
        ) == hash_of(f.deps[i].fingerprint) by {
            assert(g.deps[i] == memoized_deps(f.deps)[i]);
        }
        assert(deps_known(g, known) == deps_known(f, known)) by {
            if deps_known(g, known) {
                assert forall|i: int| 0 <= i < f.deps.len() implies known.contains_key(
                    #[trigger] hash_of(f.deps[i].fingerprint),
                ) by {
                    assert(known.contains_key(hash_of(g.deps[i].fingerprint)));
                }
            }
        }
        assert forall|path: Option<u64>|
            #![trigger relocated(g, path, known)]
            relocated(g, path, known) == relocated(f, path, known) by {
            let a = relocated(g, path, known);
            let b = relocated(f, path, known);
            assert forall|i: int| 0 <= i < f.deps.len() implies a.deps[i] == b.deps[i] by {
                assert(g.deps[i] == memoized_deps(f.deps)[i]);
            }
            assert(a.deps =~= b.deps);
        }
    }
}

/// Makes a fingerprint known as the replacement of the one with the given hash.
pub(crate) fn replace_known(known: &mut HashMap<u64, Fingerprint>, hash: u64, g: Fingerprint)
    ensures
        known_views(final(known)@) == known_views(old(known)@).insert(hash, g@),
{
    let ghost before = known_views(known@);
    known.insert(hash, g);
    assert(known_views(known@) =~= before.insert(hash, g@));
}

impl Fingerprint {
    /// Gives the fingerprint the path `path`, where there is one, and replaces the
    /// fingerprints of its dependencies by those that `known` holds for their
    /// hashes. What comes out is entered in `known` for the old hash, for the
    /// fingerprints of dependents. A path that was never set cannot be replaced.
    pub fn rewrite(
        self,
        path: Option<AbsFilePath>,
        known: &mut HashMap<u64, Fingerprint>,
    ) -> (r: Result<Fingerprint, RewriteError>)
        ensures
            ({
                let f = self@;
                let path_h = match path {
                    Some(p) => Some(path_hash(p@)),
                    None => None::<u64>,
                };
                let before = known_views(old(known)@);
                match r {
                    Ok(g) => {
                        &&& path is Some ==> f.path != 0
                        &&& deps_known(f, before)
                        &&& g@ == rewritten(f, path_h, before)
                        &&& known_views(final(known)@) == before.insert(hash_of(f), g@)
                    },
                    Err(RewriteError::UnsetPath) => {
                        &&& path is Some && f.path == 0
                        &&& final(known)@ == old(known)@
                    },
                    Err(RewriteError::UnknownDependency) => {
                        &&& path is Some ==> f.path != 0
                        &&& !deps_known(f, before)
                        &&& final(known)@ == old(known)@
                    },
                }
            }),
    {
        if path.is_some() && self.path == 0 {
            return Err(RewriteError::UnsetPath);
        }
        let mut saved: Fingerprint = self;
        let old_hash: u64 = saved.hash_u64();
        proof {
            lemma_memoized_is_relocated_alike(self@, known_views(known@));
        }
        let g = match saved.replaced(path, known) {
            Ok(g) => g,
            Err(e) => {
                return Err(e);
            },
        };
        replace_known(known, old_hash, g.clone());
        Ok(g)
    }

    /// The fingerprint for this machine, like `rewrite`, but nothing is known of it yet,
    /// and a path that was never set is replaced too.
    pub(crate) fn replaced(
        self,
        path: Option<AbsFilePath>,
        known: &HashMap<u64, Fingerprint>,
    ) -> (r: Result<Fingerprint, RewriteError>)
        ensures
            ({
                let f = self@;
                let path_h = match path {
                    Some(p) => Some(path_hash(p@)),
                    None => None::<u64>,
                };
                let before = known_views(known@);
                match r {
                    Ok(g) => deps_known(f, before) && g@ == rewritten(f, path_h, before),
                    Err(e) => e == RewriteError::UnknownDependency && !deps_known(f, before),
                }
            }),
    {
        let path_h: Option<u64> = match &path {
            Some(p) => Some(util_hash_u64(p)),
            None => None,
        };
        let new_path: u64 = match path_h {
            Some(h) => h,
            None => self.path,
        };
        let ghost f = self@;
        let ghost before = known_views(known@);
        let ghost all = self.deps@;
        proof {
            lemma_dep_views(all);
        }
        let n: usize = self.deps.len();
        let mut rest: Vec<DepFingerprint> = self.deps;
        let mut deps: Vec<DepFingerprint> = Vec::new();
        let mut i: usize = 0;
        assert(all.skip(0) =~= all);
        while i < n
            invariant
                i <= n,
                n == all.len(),
                deps.len() == i,
                before == known_views(known@),
                f == self@,
                rest@ == all.skip(i as int),
                f.deps.len() == n,
                forall|j: int| 0 <= j < n ==> #[trigger] f.deps[j] == all[j]@,
                forall|j: int|
                    0 <= j < i ==> before.contains_key(#[trigger] hash_of(f.deps[j].fingerprint)),
                forall|j: int|
                    0 <= j < i ==> #[trigger] deps@[j]@ == (DepFingerprintView {
                        fingerprint: before[hash_of(f.deps[j].fingerprint)],
                        ..f.deps[j]
                    }),
            decreases n - i,
        {
            let mut dep: DepFingerprint = rest.remove(0);
            assert(dep == all[i as int]);
            assert(rest@ =~= all.skip(i + 1));
            assert(f.deps[i as int] == dep@);
            let dep_hash: u64 = dep.fingerprint.hash_u64();
            match known.get(&dep_hash) {
                Some(replacement) => {
                    assert(before.contains_key(dep_hash));
                    assert(before[dep_hash] == replacement@);
                    dep.fingerprint = replacement.clone();
                    deps.push(dep);
                },
                None => {
                    assert(!before.contains_key(hash_of(f.deps[i as int].fingerprint)));
                    return Err(RewriteError::UnknownDependency);
                },
            }
            i += 1;
        }
        let mut g = Fingerprint {
            rustc: self.rustc,
            features: self.features,
            declared_features: self.declared_features,
            target: self.target,
            profile: self.profile,
            path: new_path,
            deps,
            local: self.local,
            memoized_hash: None,
            rustflags: self.rustflags,
            config: self.config,
            compile_kind: self.compile_kind,
        };
        proof {
            lemma_dep_views(g.deps@);
            let want = relocated(f, path_h, before);
            assert forall|j: int| 0 <= j < want.deps.len() implies g@.deps[j] == want.deps[j] by {
                assert(g@.deps[j] == g.deps@[j]@);
            }
            assert(g@.deps =~= want.deps);
            assert(g@ == want);
        }
        g.hash_u64();
        Ok(g)
    }

    /// The fingerprint as it is saved. Its path is that of the source file as seen from
    /// `$CARGO_HOME`, if that is given and a path is set. The fingerprints of its
    /// dependencies are those that were saved, as far as they are known for their hashes.
    pub fn into_portable(self, path: Option<RelFilePath>, known: &HashMap<u64, Fingerprint>) -> (r:
        Fingerprint)
        ensures
            r@ == portable(
                self@,
                match path {
                    Some(p) => Some(path_hash(p@)),
                    None => None,
                },
                known_views(known@),
            ),
    {
        let path_h: Option<u64> = match &path {
            Some(p) => Some(saved_path_hash(p)),
            None => None,
        };
        let new_path: u64 = match path_h {
            Some(h) => if self.path != 0 {
                h
            } else {
                0
            },
            None => self.path,
        };
        let ghost f = self@;
        let ghost before = known_views(known@);
        let ghost all = self.deps@;
        proof {
            lemma_dep_views(all);
        }
        let n: usize = self.deps.len();
        let mut rest: Vec<DepFingerprint> = self.deps;
        let mut deps: Vec<DepFingerprint> = Vec::new();
        let mut i: usize = 0;
        assert(all.skip(0) =~= all);
        while i < n
            invariant
                i <= n,
                n == all.len(),
                deps.len() == i,
                before == known_views(known@),
                rest@ == all.skip(i as int),
                f.deps.len() == n,
                forall|j: int| 0 <= j < n ==> #[trigger] f.deps[j] == all[j]@,
                forall|j: int|
                    0 <= j < i ==> #[trigger] deps@[j]@ == (DepFingerprintView {
                        fingerprint: replacement(f.deps[j].fingerprint, before),
                        ..f.deps[j]
                    }),
            decreases n - i,
        {
            let mut dep: DepFingerprint = rest.remove(0);
            assert(dep == all[i as int]);
            assert(rest@ =~= all.skip(i + 1));
            assert(f.deps[i as int] == dep@);
            let dep_hash: u64 = dep.fingerprint.clone().hash_u64();
            if let Some(saved) = known.get(&dep_hash) {
                assert(before.contains_key(dep_hash));
                assert(before[dep_hash] == saved@);
                dep.fingerprint = saved.clone();
            } else {
                assert(!before.contains_key(dep_hash));
            }
            deps.push(dep);
            i += 1;
        }
        let mut g = Fingerprint {
            rustc: self.rustc,
            features: self.features,
            declared_features: self.declared_features,
            target: self.target,
            profile: self.profile,
            path: new_path,
            deps,
            local: self.local,
            memoized_hash: None,
            rustflags: self.rustflags,
            config: self.config,
            compile_kind: self.compile_kind,
        };
        proof {
            lemma_dep_views(g.deps@);
            let want = detached(f, path_h, before);
            assert forall|j: int| 0 <= j < want.deps.len() implies g@.deps[j] == want.deps[j] by {
                assert(g@.deps[j] == g.deps@[j]@);
            }
            assert(g@.deps =~= want.deps);
            assert(g@ == want);
        }
        g.hash_u64();
        g
    }

    /// The hash as text, as Cargo writes it to the fingerprint's hash file.
    pub fn fingerprint_hash(&mut self) -> (r: String)
        ensures
            r@ == hash_text(old(self)@),
            final(self)@ == memoized(old(self)@),
    {
        let bytes: Vec<u8> = vstd::bytes::u64_to_le_bytes(self.hash_u64());
        hash::hex_encode(&bytes)
    }

    /// Whether the text of a fingerprint's hash file is that of this fingerprint.
    pub fn matches_hash_file(&mut self, contents: &str) -> (r: bool)
        ensures
            r == (contents@ == hash_text(old(self)@)),
            final(self)@ == memoized(old(self)@),
    {
        text::same(self.fingerprint_hash().as_str(), contents)
    }
}

/// The hash of a fingerprint as text: eight bytes, lowest first, two digits each.
pub open spec fn hash_text(f: FingerprintView) -> Seq<char> {
    hash::hex_text(vstd::bytes::spec_u64_to_le_bytes(hash_of(f)))
}

impl DepFingerprint {
    /// What is stored of a dependency: its fields, with the hash of its fingerprint
    /// in place of the fingerprint.
    pub fn to_parts(&mut self) -> (r: (u64, String, bool, u64))
        ensures
            r.0 == old(self)@.pkg_id,
            r.1@ == old(self)@.name,
            r.2 == old(self)@.public,
            r.3 == hash_of(old(self)@.fingerprint),
            final(self)@ == (DepFingerprintView {
                fingerprint: memoized(old(self)@.fingerprint),
                ..old(self)@
            }),
    {
        (self.pkg_id, self.name.clone(), self.public, self.fingerprint.hash_u64())
    }

    /// A dependency of which only the hash of its fingerprint is known.
    pub fn from_parts(pkg_id: u64, name: String, public: bool, hash: u64) -> (r: DepFingerprint)
        ensures
            r@.pkg_id == pkg_id,
            r@.name == name@,
            r@.public == public,
            r@.fingerprint == hash_only(hash),
    {
        let mut fingerprint = Fingerprint::new();
        fingerprint.memoized_hash = Some(hash);
        let r = DepFingerprint { pkg_id, name, public, fingerprint };
        assert(r@.fingerprint =~= hash_only(hash));
        r
    }
}

/// A fingerprint of which only the hash is known.
pub open spec fn hash_only(h: u64) -> FingerprintView {
    FingerprintView {
        rustc: 0,
        features: Seq::empty(),
        declared_features: Seq::empty(),
        target: 0,
        profile: 0,
        path: 0,
        deps: Seq::empty(),
        local: Seq::empty(),
        memoized_hash: Some(h),
        rustflags: Seq::empty(),
        config: 0,
        compile_kind: 0,
    }
}

/// A fingerprint as it comes back from storage: without the hash that it carried,
/// and with no more than the hashes of its dependencies.
pub open spec fn stored(f: FingerprintView) -> FingerprintView {
    FingerprintView {
        deps: Seq::new(
            f.deps.len(),
            |i: int|
                DepFingerprintView {
                    fingerprint: hash_only(hash_of(f.deps[i].fingerprint)),
                    ..f.deps[i]
                },
        ),
        memoized_hash: None,
        ..f
    }
}

/// Whether a hash that is carried along is the one that the fields give.
pub open spec fn memo_is_current(f: FingerprintView) -> bool {
    f.memoized_hash matches Some(h) ==> h == hash_of(FingerprintView { memoized_hash: None, ..f })
}

/// What is fed for dependencies is determined by their fields and the hashes of
/// their fingerprints.
pub proof fn lemma_feed_deps_by_hash(
    acc: Seq<u8>,
    a: Seq<DepFingerprintView>,
    b: Seq<DepFingerprintView>,
)
    requires
        a.len() == b.len(),
        forall|i: int|
            #![trigger a[i], b[i]]
            0 <= i < a.len() ==> {
                &&& a[i].pkg_id == b[i].pkg_id
                &&& a[i].name == b[i].name
                &&& a[i].public == b[i].public
                &&& hash_of(a[i].fingerprint) == hash_of(b[i].fingerprint)
            },
    ensures
        feed_deps(acc, a) == feed_deps(acc, b),
    decreases a.len(),
{
    if a.len() > 0 {
        let x = a.drop_last();
        let y = b.drop_last();
        assert forall|i: int|
            #![trigger x[i], y[i]]
            0 <= i < x.len() implies {
            &&& x[i].pkg_id == y[i].pkg_id
            &&& x[i].name == y[i].name
            &&& x[i].public == y[i].public
            &&& hash_of(x[i].fingerprint) == hash_of(y[i].fingerprint)
        } by {
            assert(x[i] == a[i] && y[i] == b[i]);
        }
        lemma_feed_deps_by_hash(acc, x, y);
        assert(a.last() == a[a.len() - 1] && b.last() == b[b.len() - 1]);
    }
}

/// Once its hash was asked for, a fingerprint keeps that hash whatever becomes of its
/// fields, and asking again changes nothing, until the hash is cleared. Then it is
/// computed from the fields as they are.
pub proof fn law_hash_is_kept_until_cleared(f: FingerprintView, changed: FingerprintView)
    requires
        changed.memoized_hash == memoized(f).memoized_hash,
    ensures
        hash_of(changed) == hash_of(f),
        memoized(changed) == changed,
        ({
            let cleared = FingerprintView { memoized_hash: None, ..changed };
            hash_of(cleared) == stable_hash::finish_value(
                feed_deps(
                    feed_u64(feed_fields(Seq::empty(), changed), changed.deps.len() as u64),
                    changed.deps,
                ),
            )
        }),
{
    let cleared = FingerprintView { memoized_hash: None, ..changed };
    assert(feed_fields(Seq::empty(), cleared) == feed_fields(Seq::empty(), changed));
}

/// Asking for the hash of a fingerprint changes no field that goes into it: the hash
/// that the fields give stays the same.
pub proof fn law_asking_for_the_hash_keeps_it(f: FingerprintView)
    ensures
        hash_of(memoized(f)) == hash_of(f),
        hash_of(FingerprintView { memoized_hash: None, ..memoized(f) }) == hash_of(
            FingerprintView { memoized_hash: None, ..f },
        ),
        memo_is_current(f) ==> memo_is_current(memoized(f)),
{
    if f.memoized_hash is None {
        let g = FingerprintView { memoized_hash: None, ..memoized(f) };
        let acc = feed_u64(feed_fields(Seq::empty(), f), f.deps.len() as u64);
        lemma_memoized_deps(f.deps);
        assert(feed_fields(Seq::empty(), g) == feed_fields(Seq::empty(), f));
        assert forall|i: int|
            #![trigger g.deps[i], f.deps[i]]
            0 <= i < g.deps.len() implies {
            &&& g.deps[i].pkg_id == f.deps[i].pkg_id
            &&& g.deps[i].name == f.deps[i].name
            &&& g.deps[i].public == f.deps[i].public
            &&& hash_of(g.deps[i].fingerprint) == hash_of(f.deps[i].fingerprint)
        } by {
            assert(g.deps[i] == memoized_deps(f.deps)[i]);
        }
        lemma_feed_deps_by_hash(acc, g.deps, f.deps);
    }
}

/// A fingerprint keeps its hash when it is stored and read back, although only
/// the hashes of its dependencies are stored.
pub proof fn law_stored_fingerprint_keeps_hash(f: FingerprintView)
    requires
        memo_is_current(f),
    ensures
        hash_of(stored(f)) == hash_of(f),
        memo_is_current(stored(f)),
{
    let g = FingerprintView { memoized_hash: None, ..f };
    let acc = feed_u64(feed_fields(Seq::empty(), g), g.deps.len() as u64);
    assert(feed_fields(Seq::empty(), stored(f)) == feed_fields(Seq::empty(), g));
    lemma_feed_deps_by_hash(acc, stored(f).deps, g.deps);
}

/// A rewritten fingerprint carries the hash that its fields give, and keeps every
/// field but the path, the dependencies' fingerprints and the carried hash.
pub proof fn law_rewritten_is_consistent(
    f: FingerprintView,
    path: Option<u64>,
    known: Map<u64, FingerprintView>,
)
    ensures
        memo_is_current(rewritten(f, path, known)),
        ({
            let g = rewritten(f, path, known);
            &&& g.rustc == f.rustc
            &&& g.features == f.features
            &&& g.declared_features == f.declared_features
            &&& g.target == f.target
            &&& g.profile == f.profile
            &&& g.local == f.local
            &&& g.rustflags == f.rustflags
            &&& g.config == f.config
            &&& g.compile_kind == f.compile_kind
            &&& g.path == (match path {
                Some(h) => h,
                None => f.path,
            })
            &&& g.deps.len() == f.deps.len()
            &&& forall|i: int|
                0 <= i < f.deps.len() ==> {
                    &&& (#[trigger] g.deps[i]).pkg_id == f.deps[i].pkg_id
                    &&& g.deps[i].name == f.deps[i].name
                    &&& g.deps[i].public == f.deps[i].public
                    &&& g.deps[i].fingerprint == memoized(
                        known[hash_of(f.deps[i].fingerprint)],
                    )
                }
        }),
{
    let w = relocated(f, path, known);
    law_asking_for_the_hash_keeps_it(w);
    lemma_memoized_deps(w.deps);
    assert forall|i: int| 0 <= i < f.deps.len() implies (#[trigger] rewritten(
        f,
        path,
        known,
    ).deps[i]) == (DepFingerprintView {
        fingerprint: memoized(known[hash_of(f.deps[i].fingerprint)]),
        ..f.deps[i]
    }) by {
        assert(w.deps[i].fingerprint == known[hash_of(f.deps[i].fingerprint)]);
        assert(memoized_deps(w.deps)[i].fingerprint == memoized(w.deps[i].fingerprint));
    }
}

/// Rewriting a fingerprint for the machine that it comes from changes nothing:
/// with the same path, and dependencies that keep their hashes, it keeps its own.
pub proof fn law_rewrite_in_place_keeps_hash(
    f: FingerprintView,
    path: Option<u64>,
    known: Map<u64, FingerprintView>,
)
    requires
        memo_is_current(f),
        path matches Some(h) ==> h == f.path,
        forall|i: int|
            #![trigger f.deps[i]]
            0 <= i < f.deps.len() ==> hash_of(known[hash_of(f.deps[i].fingerprint)]) == hash_of(
                f.deps[i].fingerprint,
            ),
    ensures
        hash_of(rewritten(f, path, known)) == hash_of(f),
{
    let g = FingerprintView { memoized_hash: None, ..f };
    let w = relocated(f, path, known);
    let acc = feed_u64(feed_fields(Seq::empty(), g), g.deps.len() as u64);
    assert(feed_fields(Seq::empty(), w) == feed_fields(Seq::empty(), g));
    assert forall|i: int|
        #![trigger w.deps[i], g.deps[i]]
        0 <= i < w.deps.len() implies {
        &&& w.deps[i].pkg_id == g.deps[i].pkg_id
        &&& w.deps[i].name == g.deps[i].name
        &&& w.deps[i].public == g.deps[i].public
        &&& hash_of(w.deps[i].fingerprint) == hash_of(g.deps[i].fingerprint)
    } by {
        assert(f.deps[i] == g.deps[i]);
    }
    lemma_feed_deps_by_hash(acc, w.deps, g.deps);
}

/// Fingerprints of one unit that differ from machine to machine only in the path of
/// the source file, and in those of its dependencies, are the same once they are saved.
/// So what one machine saves finds what another machine saved of its dependencies.
pub proof fn law_saved_fingerprints_are_portable(
    a: FingerprintView,
    b: FingerprintView,
    path: Option<u64>,
    known_a: Map<u64, FingerprintView>,
    known_b: Map<u64, FingerprintView>,
)
    requires
        b == (FingerprintView {
            path: b.path,
            deps: b.deps,
            memoized_hash: b.memoized_hash,
            ..a
        }),
        a.path == b.path || path is Some && a.path != 0 && b.path != 0,
        a.deps.len() == b.deps.len(),
        forall|i: int|
            #![trigger a.deps[i], b.deps[i]]
            0 <= i < a.deps.len() ==> {
                &&& a.deps[i].pkg_id == b.deps[i].pkg_id
                &&& a.deps[i].name == b.deps[i].name
                &&& a.deps[i].public == b.deps[i].public
                &&& hash_of(replacement(a.deps[i].fingerprint, known_a)) == hash_of(
                    replacement(b.deps[i].fingerprint, known_b),
                )
            },
    ensures
        hash_of(portable(a, path, known_a)) == hash_of(portable(b, path, known_b)),
{
    let x = detached(a, path, known_a);
    let y = detached(b, path, known_b);
    let acc = feed_u64(feed_fields(Seq::empty(), x), x.deps.len() as u64);
    assert(feed_fields(Seq::empty(), x) == feed_fields(Seq::empty(), y));
    assert forall|i: int|
        #![trigger x.deps[i], y.deps[i]]
        0 <= i < x.deps.len() implies {
        &&& x.deps[i].pkg_id == y.deps[i].pkg_id
        &&& x.deps[i].name == y.deps[i].name
        &&& x.deps[i].public == y.deps[i].public
        &&& hash_of(x.deps[i].fingerprint) == hash_of(y.deps[i].fingerprint)
    } by {
        assert(a.deps[i].pkg_id == b.deps[i].pkg_id);
    }
    lemma_feed_deps_by_hash(acc, x.deps, y.deps);
    law_asking_for_the_hash_keeps_it(x);
    law_asking_for_the_hash_keeps_it(y);
}

/// A fingerprint that is saved and restored on the machine that it comes from keeps its
/// hash, if the fingerprints of its dependencies keep theirs.
pub proof fn law_saved_fingerprint_is_restored(
    f: FingerprintView,
    saved_path: Option<u64>,
    path: Option<u64>,
    known_saved: Map<u64, FingerprintView>,
    known: Map<u64, FingerprintView>,
)
    requires
        memo_is_current(f),
        path matches Some(h) ==> h == f.path,
        path is None ==> saved_path is None,
        forall|i: int|
            #![trigger f.deps[i]]
            0 <= i < f.deps.len() ==> hash_of(
                known[hash_of(replacement(f.deps[i].fingerprint, known_saved))],
            ) == hash_of(f.deps[i].fingerprint),
    ensures
        hash_of(rewritten(portable(f, saved_path, known_saved), path, known)) == hash_of(f),
{
    let d = detached(f, saved_path, known_saved);
    let g = portable(f, saved_path, known_saved);
    let w = relocated(g, path, known);
    let c = FingerprintView { memoized_hash: None, ..f };
    let acc = feed_u64(feed_fields(Seq::empty(), c), c.deps.len() as u64);
    lemma_memoized_deps(d.deps);
    assert(feed_fields(Seq::empty(), w) == feed_fields(Seq::empty(), c));
    assert forall|i: int|
        #![trigger w.deps[i], c.deps[i]]
        0 <= i < w.deps.len() implies {
        &&& w.deps[i].pkg_id == c.deps[i].pkg_id
        &&& w.deps[i].name == c.deps[i].name
        &&& w.deps[i].public == c.deps[i].public
        &&& hash_of(w.deps[i].fingerprint) == hash_of(c.deps[i].fingerprint)
    } by {
        assert(f.deps[i] == c.deps[i]);
        assert(g.deps[i] == memoized_deps(d.deps)[i]);
        assert(d.deps[i].fingerprint == replacement(f.deps[i].fingerprint, known_saved));
        law_asking_for_the_hash_keeps_it(d.deps[i].fingerprint);
    }
    lemma_feed_deps_by_hash(acc, w.deps, c.deps);
    law_asking_for_the_hash_keeps_it(w);
}

/// The replacements that are known after a sequence of fingerprints was rewritten
/// in order, each with its own path.
pub open spec fn known_after(
    fs: Seq<FingerprintView>,
    paths: Seq<Option<u64>>,
    known: Map<u64, FingerprintView>,
) -> Map<u64, FingerprintView>
    decreases fs.len(),
{
    if fs.len() == 0 {
        known
    } else {
        let before = known_after(fs.drop_last(), paths.drop_last(), known);
        before.insert(hash_of(fs.last()), rewritten(fs.last(), paths.last(), before))
    }
}

/// Whether every dependency comes before its dependents.
pub open spec fn in_dependency_order(fs: Seq<FingerprintView>) -> bool {
    forall|i: int, k: int|
        #![trigger fs[i].deps[k]]
        0 <= i < fs.len() && 0 <= k < fs[i].deps.len() ==> exists|j: int|
            0 <= j < i && #[trigger] hash_of(fs[j]) == hash_of(fs[i].deps[k].fingerprint)
}

proof fn lemma_known_after_holds_all(
    fs: Seq<FingerprintView>,
    paths: Seq<Option<u64>>,
    known: Map<u64, FingerprintView>,
    j: int,
)
    requires
        0 <= j < fs.len(),
    ensures
        known_after(fs, paths, known).contains_key(hash_of(fs[j])),
    decreases fs.len(),
{
    if j < fs.len() - 1 {
        lemma_known_after_holds_all(fs.drop_last(), paths.drop_last(), known, j);
        assert(fs.drop_last()[j] == fs[j]);
    }
}

/// Fingerprints that are rewritten in dependency order always find the
/// replacements of their dependencies.
pub proof fn law_dependency_order_suffices(
    fs: Seq<FingerprintView>,
    paths: Seq<Option<u64>>,
    known: Map<u64, FingerprintView>,
    i: int,
)
    requires
        0 <= i < fs.len(),
        fs.len() == paths.len(),
        in_dependency_order(fs),
    ensures
        deps_known(fs[i], known_after(fs.take(i), paths.take(i), known)),
{
    let before = known_after(fs.take(i), paths.take(i), known);
    assert forall|k: int| 0 <= k < fs[i].deps.len() implies before.contains_key(
        #[trigger] hash_of(fs[i].deps[k].fingerprint),
    ) by {
        let d = fs[i].deps[k];
        let j = choose|j: int| 0 <= j < i && #[trigger] hash_of(fs[j]) == hash_of(d.fingerprint);
        lemma_known_after_holds_all(fs.take(i), paths.take(i), known, j);
        assert(fs.take(i)[j] == fs[j]);
    }
}

proof fn lemma_fed_strs(
    acc: Seq<u8>,
    list: Seq<Seq<char>>,
    bytes: spec_fn(Seq<char>) -> Seq<u8>,
)
    requires
        forall|s: Seq<char>| #[trigger] bytes(s) == stable_hash::str_bytes(s),
    ensures
        feed_strs(acc, list) == acc + list.map_values(bytes).flatten(),
    decreases list.len(),
{
    if list.len() == 0 {
        assert(list.map_values(bytes) =~= Seq::empty());
        assert(acc + list.map_values(bytes).flatten() =~= acc);
    } else {
        let front = list.drop_last();
        lemma_fed_strs(acc, front, bytes);
        front.map_values(bytes).lemma_flatten_push(bytes(list.last()));
        assert(list.map_values(bytes) =~= front.map_values(bytes).push(bytes(list.last())));
        assert(acc + front.map_values(bytes).flatten() + bytes(list.last()) =~= acc + (
        front.map_values(bytes).flatten() + bytes(list.last())));
    }
}

proof fn lemma_fed_paths(
    acc: Seq<u8>,
    list: Seq<Seq<char>>,
    bytes: spec_fn(Seq<char>) -> Seq<u8>,
)
    requires
        forall|s: Seq<char>| #[trigger] bytes(s) == stable_hash::path_bytes(s, usize::BITS),
    ensures
        feed_paths(acc, list) == acc + list.map_values(bytes).flatten(),
    decreases list.len(),
{
    if list.len() == 0 {
        assert(list.map_values(bytes) =~= Seq::empty());
        assert(acc + list.map_values(bytes).flatten() =~= acc);
    } else {
        let front = list.drop_last();
        lemma_fed_paths(acc, front, bytes);
        front.map_values(bytes).lemma_flatten_push(bytes(list.last()));
        assert(list.map_values(bytes) =~= front.map_values(bytes).push(bytes(list.last())));
        assert(acc + front.map_values(bytes).flatten() + bytes(list.last()) =~= acc + (
        front.map_values(bytes).flatten() + bytes(list.last())));
    }
}

/// A local fingerprint is hashed as the number of its variant and then its fields, one
/// after the other: a list as its length and its items, a value that can be missing as a
/// number that tells whether it is there, and the value.
pub proof fn law_what_is_hashed_of_a_local_fingerprint(acc: Seq<u8>, l: LocalFingerprintView)
    ensures
        feed_local(acc, l) == acc + (match l {
            LocalFingerprintView::Precalculated(s) => seq![0u8] + stable_hash::str_bytes(s),
            LocalFingerprintView::CheckDepInfo { dep_info, checksum } => seq![1u8]
                + stable_hash::path_bytes(dep_info, usize::BITS) + seq![
                if checksum {
                    1u8
                } else {
                    0u8
                },
            ],
            LocalFingerprintView::RerunIfChanged { output, paths } => seq![2u8]
                + stable_hash::path_bytes(output, usize::BITS)
                + vstd::bytes::spec_u64_to_le_bytes(paths.len() as u64) + paths.map_values(
                |p: Seq<char>| stable_hash::path_bytes(p, usize::BITS),
            ).flatten(),
            LocalFingerprintView::RerunIfEnvChanged { var, val: Some(s) } => seq![3u8]
                + stable_hash::str_bytes(var) + seq![1u8] + stable_hash::str_bytes(s),
            LocalFingerprintView::RerunIfEnvChanged { var, val: None } => seq![3u8]
                + stable_hash::str_bytes(var) + seq![0u8],
        }),
{
    match l {
        LocalFingerprintView::Precalculated(s) => {
            assert(feed_local(acc, l) =~= acc + (seq![0u8] + stable_hash::str_bytes(s)));
        },
        LocalFingerprintView::CheckDepInfo { dep_info, checksum } => {
            let b = if checksum {
                1u8
            } else {
                0u8
            };
            assert(feed_local(acc, l) =~= acc + (seq![1u8] + stable_hash::path_bytes(
                dep_info,
                usize::BITS,
            ) + seq![b]));
        },
        LocalFingerprintView::RerunIfChanged { output, paths } => {
            let bytes = |p: Seq<char>| stable_hash::path_bytes(p, usize::BITS);
            let start = feed_u64(
                acc.push(2u8) + stable_hash::path_bytes(output, usize::BITS),
                paths.len() as u64,
            );
            lemma_fed_paths(start, paths, bytes);
            assert(start + paths.map_values(bytes).flatten() =~= acc + (seq![2u8]
                + stable_hash::path_bytes(output, usize::BITS)
                + vstd::bytes::spec_u64_to_le_bytes(paths.len() as u64) + paths.map_values(
                bytes,
            ).flatten()));
        },
        LocalFingerprintView::RerunIfEnvChanged { var, val } => match val {
            Some(s) => {
                assert(feed_local(acc, l) =~= acc + (seq![3u8] + stable_hash::str_bytes(var)
                    + seq![1u8] + stable_hash::str_bytes(s)));
            },
            None => {
                assert(feed_local(acc, l) =~= acc + (seq![3u8] + stable_hash::str_bytes(var)
                    + seq![0u8]));
            },
        },
    }
}

proof fn lemma_fed_locals(
    acc: Seq<u8>,
    list: Seq<LocalFingerprintView>,
    bytes: spec_fn(LocalFingerprintView) -> Seq<u8>,
)
    requires
        forall|l: LocalFingerprintView| #[trigger] bytes(l) == feed_local(Seq::empty(), l),
    ensures
        feed_locals(acc, list) == acc + list.map_values(bytes).flatten(),
    decreases list.len(),
{
    if list.len() == 0 {
        assert(list.map_values(bytes) =~= Seq::empty());
        assert(acc + list.map_values(bytes).flatten() =~= acc);
    } else {
        let front = list.drop_last();
        let last = list.last();
        lemma_fed_locals(acc, front, bytes);
        front.map_values(bytes).lemma_flatten_push(bytes(last));
        assert(list.map_values(bytes) =~= front.map_values(bytes).push(bytes(last)));
        let fed = acc + front.map_values(bytes).flatten();
        law_what_is_hashed_of_a_local_fingerprint(fed, last);
        law_what_is_hashed_of_a_local_fingerprint(Seq::empty(), last);
        assert(feed_local(fed, last) =~= fed + bytes(last));
        assert(fed + bytes(last) =~= acc + (front.map_values(bytes).flatten() + bytes(last)));
    }
}

proof fn lemma_fed_deps(
    acc: Seq<u8>,
    deps: Seq<DepFingerprintView>,
    bytes: spec_fn(DepFingerprintView) -> Seq<u8>,
)
    requires
        forall|d: DepFingerprintView| #[trigger]
            bytes(d) == vstd::bytes::spec_u64_to_le_bytes(d.pkg_id) + stable_hash::str_bytes(d.name)
                + seq![
                if d.public {
                    1u8
                } else {
                    0u8
                },
            ] + vstd::bytes::spec_u64_to_le_bytes(hash_of(d.fingerprint)),
    ensures
        feed_deps(acc, deps) == acc + deps.map_values(bytes).flatten(),
    decreases deps.len(),
{
    if deps.len() == 0 {
        assert(deps.map_values(bytes) =~= Seq::empty());
        assert(acc + deps.map_values(bytes).flatten() =~= acc);
    } else {
        let front = deps.drop_last();
        let d = deps.last();
        lemma_fed_deps(acc, front, bytes);
        front.map_values(bytes).lemma_flatten_push(bytes(d));
        assert(deps.map_values(bytes) =~= front.map_values(bytes).push(bytes(d)));
        let fed = acc + front.map_values(bytes).flatten();
        assert(feed_deps(acc, deps) =~= fed + bytes(d));
        assert(fed + bytes(d) =~= acc + (front.map_values(bytes).flatten() + bytes(d)));
    }
}

/// The hash of a fingerprint that carries none is that of all its fields but the one for
/// it, in one order, with every dependency as its package, its name, whether it is public,
/// and the hash of its fingerprint. A list goes with its length before its items, and a
/// number as eight bytes, lowest first.
pub proof fn law_what_is_hashed_of_a_fingerprint(f: FingerprintView)
    requires
        f.memoized_hash is None,
    ensures
        hash_of(f) == stable_hash::finish_value(
            vstd::bytes::spec_u64_to_le_bytes(f.rustc) + stable_hash::str_bytes(f.features)
                + stable_hash::str_bytes(f.declared_features)
                + vstd::bytes::spec_u64_to_le_bytes(f.target)
                + vstd::bytes::spec_u64_to_le_bytes(f.path)
                + vstd::bytes::spec_u64_to_le_bytes(f.profile)
                + vstd::bytes::spec_u64_to_le_bytes(f.local.len() as u64) + f.local.map_values(
                |l: LocalFingerprintView| feed_local(Seq::empty(), l),
            ).flatten() + vstd::bytes::spec_u64_to_le_bytes(f.config)
                + vstd::bytes::spec_u64_to_le_bytes(f.compile_kind)
                + vstd::bytes::spec_u64_to_le_bytes(f.rustflags.len() as u64)
                + f.rustflags.map_values(|s: Seq<char>| stable_hash::str_bytes(s)).flatten()
                + vstd::bytes::spec_u64_to_le_bytes(f.deps.len() as u64) + f.deps.map_values(
                |d: DepFingerprintView|
                    vstd::bytes::spec_u64_to_le_bytes(d.pkg_id) + stable_hash::str_bytes(d.name)
                        + seq![
                        if d.public {
                            1u8
                        } else {
                            0u8
                        },
                    ] + vstd::bytes::spec_u64_to_le_bytes(hash_of(d.fingerprint)),
            ).flatten(),
        ),
{
    let locals = |l: LocalFingerprintView| feed_local(Seq::empty(), l);
    let strs = |s: Seq<char>| stable_hash::str_bytes(s);
    let deps = |d: DepFingerprintView|
        vstd::bytes::spec_u64_to_le_bytes(d.pkg_id) + stable_hash::str_bytes(d.name) + seq![
            if d.public {
                1u8
            } else {
                0u8
            },
        ] + vstd::bytes::spec_u64_to_le_bytes(hash_of(d.fingerprint));
    let a = feed_u64(Seq::empty(), f.rustc) + stable_hash::str_bytes(f.features)
        + stable_hash::str_bytes(f.declared_features);
    let b = feed_u64(feed_u64(feed_u64(a, f.target), f.path), f.profile);
    let b1 = feed_u64(b, f.local.len() as u64);
    lemma_fed_locals(b1, f.local, locals);
    let c = feed_locals(b1, f.local);
    let d = feed_u64(feed_u64(c, f.config), f.compile_kind);
    let d1 = feed_u64(d, f.rustflags.len() as u64);
    lemma_fed_strs(d1, f.rustflags, strs);
    let e = feed_u64(feed_fields(Seq::empty(), f), f.deps.len() as u64);
    lemma_fed_deps(e, f.deps, deps);
    assert(feed_u64(Seq::empty(), f.rustc) =~= vstd::bytes::spec_u64_to_le_bytes(f.rustc));
}

/// A path is hashed as the standard library hashes it, alone.
pub proof fn law_what_is_hashed_of_a_path(p: Seq<char>)
    ensures
        path_hash(p) == stable_hash::finish_value(stable_hash::path_bytes(p, usize::BITS)),
{
    assert(Seq::<u8>::empty() + stable_hash::path_bytes(p, usize::BITS) =~= stable_hash::path_bytes(
        p,
        usize::BITS,
    ));
}

} // verus!
