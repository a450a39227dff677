use std::collections::HashMap;
use std::hash::{Hash, Hasher};
use std::path::PathBuf;

use hurry::cargo::fingerprint::{
    util_hash_u64, DepFingerprint, Fingerprint, LocalFingerprint, RewriteError,
};
use hurry::path::AbsFilePath;
use rustc_stable_hash::StableSipHasher128;

/// The inputs of a unit, hashed as the standard library hashes an enum.
#[derive(Hash)]
enum Local {
    Precalculated(String),
    CheckDepInfo { dep_info: PathBuf, checksum: bool },
    RerunIfChanged { output: PathBuf, paths: Vec<PathBuf> },
    RerunIfEnvChanged { var: String, val: Option<String> },
}

fn stable_hash(value: impl Hash) -> u64 {
    let mut hasher = StableSipHasher128::new();
    value.hash(&mut hasher);
    Hasher::finish(&hasher)
}

fn mirror(local: &LocalFingerprint) -> Local {
    match local {
        LocalFingerprint::Precalculated(s) => Local::Precalculated(s.clone()),
        LocalFingerprint::CheckDepInfo { dep_info, checksum } => {
            Local::CheckDepInfo { dep_info: PathBuf::from(dep_info), checksum: *checksum }
        }
        LocalFingerprint::RerunIfChanged { output, paths } => Local::RerunIfChanged {
            output: PathBuf::from(output),
            paths: paths.iter().map(PathBuf::from).collect(),
        },
        LocalFingerprint::RerunIfEnvChanged { var, val } => {
            Local::RerunIfEnvChanged { var: var.clone(), val: val.clone() }
        }
    }
}

/// The hash of a fingerprint, computed with the standard library's `Hash`.
fn expected_hash(f: &Fingerprint) -> u64 {
    if let Some(hash) = f.memoized_hash {
        return hash;
    }
    let mut h = StableSipHasher128::new();
    let local: Vec<Local> = f.local.iter().map(mirror).collect();
    (
        f.rustc,
        &f.features,
        &f.declared_features,
        f.target,
        f.path,
        f.profile,
        &local,
        f.config,
        f.compile_kind,
        &f.rustflags,
    )
        .hash(&mut h);
    h.write_usize(f.deps.len());
    for dep in &f.deps {
        dep.pkg_id.hash(&mut h);
        dep.name.hash(&mut h);
        dep.public.hash(&mut h);
        h.write_u64(expected_hash(&dep.fingerprint));
    }
    Hasher::finish(&h)
}

fn dep(name: &str, fingerprint: Fingerprint) -> DepFingerprint {
    DepFingerprint { pkg_id: 77, name: String::from(name), public: true, fingerprint }
}

fn sample() -> Fingerprint {
    let mut f = Fingerprint::new();
    f.rustc = 11889417047439886302;
    f.features = String::from("[\"default\", \"std\"]");
    f.declared_features = String::from("[]");
    f.target = 5;
    f.profile = u64::MAX;
    f.path = 1036222786711178230;
    f.local = vec![
        LocalFingerprint::Precalculated(String::from("0.8.0")),
        LocalFingerprint::CheckDepInfo {
            dep_info: String::from("debug/.fingerprint/a-1/dep-lib-a"),
            checksum: false,
        },
        LocalFingerprint::RerunIfChanged {
            output: String::from("debug/build/a-1/output"),
            paths: vec![String::from("build.rs"), String::from("/usr//include/./a.h")],
        },
        LocalFingerprint::RerunIfEnvChanged { var: String::from("CC"), val: None },
        LocalFingerprint::RerunIfEnvChanged {
            var: String::from("CFLAGS"),
            val: Some(String::from("-O2")),
        },
    ];
    f.rustflags = vec![String::from("-C"), String::from("target-cpu=native")];
    f.config = 2069994364910194474;
    f.compile_kind = 3;
    f
}

fn known_hash(hash: u64) -> Fingerprint {
    let mut f = Fingerprint::new();
    f.memoized_hash = Some(hash);
    f
}

#[test]
fn hashes_are_those_of_cargo() {
    let empty = Fingerprint::new();
    assert_eq!(expected_hash(&empty), empty.clone().hash_u64());
    let mut f = sample();
    assert_eq!(expected_hash(&f), f.hash_u64());
    let mut g = sample();
    g.deps = vec![dep("b", sample()), dep("c", known_hash(42))];
    assert_eq!(expected_hash(&g), g.hash_u64());
    assert_ne!(g.hash_u64(), f.hash_u64());
}

#[test]
fn hashes_of_paths() {
    for p in ["/", "/home/user/.cargo/registry/src/a-1.0.0/src/lib.rs", "/a//b/./c/"] {
        let abs = AbsFilePath::new(p).unwrap();
        assert_eq!(util_hash_u64(&abs), stable_hash(PathBuf::from(p)));
    }
}

#[test]
fn hash_files_hold_the_bytes_of_the_hash() {
    let mut f = known_hash(0x0123_4567_89ab_cdef);
    assert_eq!(f.fingerprint_hash(), "efcdab8967452301");
    assert!(f.matches_hash_file("efcdab8967452301"));
    assert!(!f.matches_hash_file("efcdab8967452302"));
    assert!(!f.matches_hash_file("efcdab8967452301\n"));
}

#[test]
fn known_hashes_can_be_forgotten() {
    let mut f = sample();
    let hash = f.hash_u64();
    f.memoized_hash = Some(1);
    assert_eq!(f.hash_u64(), 1);
    f.clear_memoized();
    assert_eq!(f.hash_u64(), hash);
}

#[test]
fn hashes_are_kept_until_they_are_cleared() {
    let mut f = sample();
    f.deps = vec![dep("b", sample())];
    let hash = f.hash_u64();
    assert_eq!(f.memoized_hash, Some(hash));
    f.path = 1;
    assert_eq!(f.hash_u64(), hash);
    assert_eq!(f.clone().hash_u64(), hash);
    assert_eq!(f.fingerprint_hash(), known_hash(hash).fingerprint_hash());
    f.deps[0].fingerprint.path = 2;
    assert_eq!(f.deps[0].fingerprint.hash_u64(), sample().hash_u64());
    f.clear_memoized();
    let mut moved = sample();
    moved.path = 1;
    moved.deps = vec![dep("b", sample())];
    assert_eq!(f.hash_u64(), moved.hash_u64());
    assert_ne!(f.hash_u64(), hash);

    let mut f = sample();
    let text = f.fingerprint_hash();
    f.path = 1;
    assert!(f.matches_hash_file(&text));
    f.clear_memoized();
    assert!(!f.matches_hash_file(&text));
}

#[test]
fn stored_dependencies_keep_their_hashes() {
    let mut d = dep("b", sample());
    let (pkg_id, name, public, hash) = d.to_parts();
    assert_eq!((pkg_id, name.as_str(), public), (77, "b", true));
    assert_eq!(hash, sample().hash_u64());
    assert_eq!(d.fingerprint.memoized_hash, Some(hash));
    let mut back = DepFingerprint::from_parts(pkg_id, name, public, hash);
    assert_eq!(back.fingerprint.hash_u64(), hash);

    let mut f = sample();
    f.deps = vec![dep("b", sample())];
    let mut g = sample();
    g.deps = vec![dep("b", known_hash(sample().hash_u64()))];
    assert_eq!(f.hash_u64(), g.hash_u64());
}

#[test]
fn rewritten_fingerprints_follow_their_dependencies() {
    let mut known = HashMap::new();
    let lib = AbsFilePath::new("/there/b/src/lib.rs").unwrap();
    let b_hash = sample().hash_u64();
    let mut b = sample().rewrite(Some(lib), &mut known).unwrap();
    assert_eq!(b.path, stable_hash(PathBuf::from("/there/b/src/lib.rs")));
    let mut cleared = b.clone();
    cleared.clear_memoized();
    assert_eq!(b.hash_u64(), expected_hash(&cleared));
    assert_ne!(b.hash_u64(), b_hash);
    assert_eq!(known.get(&b_hash).unwrap().clone().hash_u64(), b.hash_u64());

    let mut a = sample();
    a.deps = vec![dep("b", known_hash(b_hash))];
    let a_hash = a.hash_u64();
    let mut a = a.rewrite(None, &mut known).unwrap();
    assert_eq!(a.path, sample().path);
    assert_eq!(a.deps[0].fingerprint.hash_u64(), b.hash_u64());
    assert_ne!(a.hash_u64(), a_hash);
    assert_eq!(known.len(), 2);
}

#[test]
fn rewriting_in_place_changes_nothing() {
    let src = AbsFilePath::new("/here/src/lib.rs").unwrap();
    let mut f = sample();
    f.path = util_hash_u64(&src);
    let hash = f.hash_u64();
    let mut g = f.rewrite(Some(src), &mut HashMap::new()).unwrap();
    assert_eq!(g.hash_u64(), hash);
}

#[test]
fn fingerprints_that_cannot_be_rewritten() {
    let src = AbsFilePath::new("/here/src/lib.rs").unwrap();
    let mut f = sample();
    f.path = 0;
    assert_eq!(
        f.rewrite(Some(src.clone()), &mut HashMap::new()).unwrap_err(),
        RewriteError::UnsetPath
    );
    let mut f = sample();
    f.deps = vec![dep("b", known_hash(9))];
    assert_eq!(
        f.rewrite(None, &mut HashMap::new()).unwrap_err(),
        RewriteError::UnknownDependency
    );
}

#[test]
fn copies_have_the_same_hash() {
    let mut f = sample();
    f.deps = vec![dep("b", sample())];
    assert_eq!(format!("{:?}", f.clone()), format!("{f:?}"));
    assert_eq!(f.clone().hash_u64(), f.hash_u64());
    assert_eq!(format!("{:?}", f.clone()), format!("{f:?}"));
}
