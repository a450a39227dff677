use std::collections::HashMap;

use hurry::cache::backend::BulkStoreResult;
use hurry::cache::fs::{FsCache, FsCas, Unlocked};
use hurry::cache::local::cas::{
    hashed_copy, CasWrite, CasWriteError, LocalCas, RenameFailed, RenameOutcome,
};
use hurry::cache::local::metadata::{LocalMetadata, MetadataRow, COUNT, INSERT, RESET, SCHEMA};
use hurry::cache::local::{default_cache_dir, BulkReadError, LocalBackend};
use hurry::cargo::glibc::GLIBCVersion;
use hurry::hash::{Key, KeySet};
use hurry::path::AbsDirPath;

/// A disk: files by their paths.
struct Disk {
    files: HashMap<String, Vec<u8>>,
}

impl Disk {
    fn write(&mut self, cas: &LocalCas, key: &Key, content: &Vec<u8>) -> Result<bool, CasWriteError> {
        let exists = self.files.contains_key(&cas.key_path(key));
        match cas.write(key, content, exists, "id")? {
            CasWrite::AlreadyThere => Ok(false),
            CasWrite::Store { dir, temp, path, bytes } => {
                assert!(path.starts_with(&dir));
                self.files.insert(temp.clone(), bytes);
                let bytes = self.files.remove(&temp).unwrap();
                self.files.insert(path, bytes);
                Ok(LocalCas::finish_write(RenameOutcome::Done).1.unwrap())
            }
        }
    }

    fn read(&self, cas: &LocalCas, key: &Key) -> Option<Vec<u8>> {
        LocalCas::read_buffered(self.files.get(&cas.key_path(key)).cloned()).unwrap()
    }
}

struct Database {
    conn: rusqlite::Connection,
}

impl Database {
    fn in_memory() -> Database {
        let conn = rusqlite::Connection::open_in_memory().unwrap();
        conn.execute_batch(SCHEMA).unwrap();
        Database { conn }
    }

    fn save(&self, hash: &str, data: &str, target: &str, glibc: Option<GLIBCVersion>) {
        let row = LocalMetadata::row(hash, target, glibc, data);
        self.conn
            .execute(
                INSERT,
                (
                    row.unit_hash,
                    row.resolved_target,
                    row.glibc_major,
                    row.glibc_minor,
                    row.glibc_patch,
                    row.data,
                ),
            )
            .unwrap();
    }

    fn restore(&self, hashes: &[&str], host: Option<GLIBCVersion>) -> Vec<(String, String)> {
        let query = match LocalMetadata::restore_query(hashes.len()) {
            Some(query) => query,
            None => return vec![],
        };
        let mut stmt = self.conn.prepare(&query).unwrap();
        let rows: Vec<MetadataRow> = stmt
            .query_map(rusqlite::params_from_iter(hashes.iter()), |row| {
                Ok(MetadataRow {
                    unit_hash: row.get(0)?,
                    resolved_target: String::new(),
                    glibc_major: row.get(1)?,
                    glibc_minor: row.get(2)?,
                    glibc_patch: row.get(3)?,
                    data: row.get(4)?,
                })
            })
            .unwrap()
            .map(|row| row.unwrap())
            .collect();
        LocalMetadata::restore(&rows, &host)
    }

    fn count(&self) -> i64 {
        self.conn.query_row(COUNT, [], |row| row.get(0)).unwrap()
    }
}

fn glibc(major: u32, minor: u32, patch: u32) -> GLIBCVersion {
    GLIBCVersion { major, minor, patch }
}

#[test]
fn cas_round_trip() {
    let cas = LocalCas::new("/cache/cas");
    let mut disk = Disk { files: HashMap::new() };
    let content = b"hello world".to_vec();
    let key = Key::from_buffer(&content);

    assert_eq!(disk.write(&cas, &key, &content).unwrap(), true);
    assert_eq!(disk.write(&cas, &key, &content).unwrap(), false);
    assert_eq!(disk.read(&cas, &key).unwrap(), content);
}

#[test]
fn missing_key() {
    let cas = LocalCas::new("/cache/cas");
    let disk = Disk { files: HashMap::new() };
    let key = Key::from_buffer(&b"nonexistent".to_vec());

    assert_eq!(disk.files.contains_key(&cas.key_path(&key)), false);
    assert_eq!(disk.read(&cas, &key), None);
}

#[test]
fn metadata_round_trip() {
    let db = Database::in_memory();
    db.save("unit-hash-1", "unit", "x86_64-unknown-linux-gnu", None);
    let results = db.restore(&["unit-hash-1"], None);
    assert_eq!(results.len(), 1);
    assert_eq!(results[0].0, "unit-hash-1");
    assert_eq!(results[0].1, "unit");
}

#[test]
fn glibc_filtering() {
    let db = Database::in_memory();
    db.save("unit-hash-1", "unit", "x86_64-unknown-linux-gnu", Some(glibc(2, 35, 0)));
    assert_eq!(db.restore(&["unit-hash-1"], Some(glibc(2, 31, 0))).len(), 0);
    assert_eq!(db.restore(&["unit-hash-1"], Some(glibc(2, 35, 0))).len(), 1);
    assert_eq!(db.restore(&["unit-hash-1"], Some(glibc(2, 38, 0))).len(), 1);
}

#[test]
fn reset() {
    let db = Database::in_memory();
    db.save("unit-hash-1", "unit", "target", None);
    assert_eq!(db.count(), 1);
    db.conn.execute(RESET, []).unwrap();
    assert_eq!(db.count(), 0);
}

#[test]
fn backend_round_trip() {
    let backend = LocalBackend::open("/tmp/cache");
    let mut disk = Disk { files: HashMap::new() };
    let content = b"test content".to_vec();
    let key = Key::from_buffer(&content);
    assert_eq!(disk.write(backend.cas(), &key, &content).unwrap(), true);
    assert_eq!(disk.read(backend.cas(), &key).unwrap(), content);

    let db = Database::in_memory();
    db.save("test-hash", "unit", "x86_64-unknown-linux-gnu", None);
    let results = db.restore(&["test-hash"], None);
    assert_eq!(results.len(), 1);
    assert_eq!(results[0].0, "test-hash");
}

#[test]
fn rows_are_asked_for_by_their_hashes() {
    let db = Database::in_memory();
    db.save("a", "1", "t", None);
    db.save("b", "2", "t", None);
    db.save("c", "3", "t", None);
    db.save("a", "4", "t", None);
    let mut found = db.restore(&["a", "c"], None);
    found.sort();
    assert_eq!(
        found,
        vec![
            (String::from("a"), String::from("4")),
            (String::from("c"), String::from("3"))
        ]
    );
    assert_eq!(db.restore(&[], None), vec![]);
    assert_eq!(LocalMetadata::restore_query(0), None);
    assert_eq!(
        LocalMetadata::restore_query(2).unwrap(),
        "SELECT unit_hash, glibc_major, glibc_minor, glibc_patch, data FROM saved_units WHERE unit_hash IN (?, ?)"
    );
}

#[test]
fn content_of_another_key_is_refused() {
    let cas = LocalCas::new("/cache/cas");
    let content = b"hello".to_vec();
    let other = Key::from_buffer(&b"world".to_vec());
    match cas.write(&other, &content, false, "id") {
        Err(CasWriteError::HashMismatch(actual)) => {
            assert!(actual.same(&Key::from_buffer(&content)));
        }
        _ => panic!("the content has another key"),
    }
}

#[test]
fn files_of_keys() {
    let cas = LocalCas::new("root");
    let key = Key::from_hex("abcd123400000000000000000000000000000000000000000000000000000000");
    let key = key.unwrap();
    assert_eq!(
        cas.key_path(&key),
        "root/ab/cd/abcd123400000000000000000000000000000000000000000000000000000000"
    );
    match cas.plan_store(&key, Some(vec![1, 2]), "7") {
        Ok(CasWrite::Store { dir, temp, path, bytes }) => {
            assert_eq!(dir, "root/ab/cd");
            assert_eq!(path, cas.key_path(&key));
            assert_eq!(temp, format!("{path}.tmp.7"));
            assert_eq!(bytes, vec![1, 2]);
        }
        _ => panic!("there is content to store"),
    }
    assert!(matches!(cas.plan_store(&key, None, "7"), Err(CasWriteError::Encoding)));
}

#[test]
fn content_is_compressed_and_comes_back() {
    let cas = LocalCas::new("/c");
    for content in [vec![], vec![7u8; 100_000], (0..50_000u32).map(|i| (i * i) as u8).collect()] {
        let key = Key::from_buffer(&content);
        match cas.write(&key, &content, false, "id") {
            Ok(CasWrite::Store { bytes, .. }) => {
                assert_ne!(bytes, content);
                let back = LocalCas::read_buffered(Some(bytes)).unwrap().unwrap();
                assert!(back == content);
            }
            _ => panic!("the content is new"),
        }
    }
    assert!(LocalCas::read_buffered(Some(b"no frame".to_vec())).is_err());
    assert!(LocalCas::read_buffered(Some(vec![])).is_err());
    assert!(LocalCas::read_buffered(None).unwrap().is_none());
}

#[test]
fn outcomes_of_renaming() {
    assert_eq!(LocalCas::finish_write(RenameOutcome::Done), (false, Ok(true)));
    assert_eq!(LocalCas::finish_write(RenameOutcome::AlreadyExists), (true, Ok(false)));
    assert_eq!(LocalCas::finish_write(RenameOutcome::Failed), (true, Err(RenameFailed)));
}

#[test]
fn copies_are_hashed() {
    let content: Vec<u8> = (0..40_000u32).map(|i| i as u8).collect();
    let mut target = vec![9u8];
    let (key, copied) = hashed_copy(&content, &mut target);
    assert!(key.same(&Key::from_buffer(&content)));
    assert_eq!(key.to_hex(), blake3::hash(&content).to_hex().to_string());
    assert_eq!(copied, 40_000);
    assert_eq!(target.len(), 40_001);
    assert_eq!(&target[1..], &content[..]);
}

#[test]
fn where_the_cache_is() {
    let env = vec![(String::from("HURRY_CACHE_DIR"), String::from("/var/cache"))];
    assert_eq!(default_cache_dir(&env, Some(String::from("/p"))).unwrap(), "/var/cache");
    assert_eq!(default_cache_dir(&vec![], Some(String::from("/p"))).unwrap(), "/p");
    assert!(default_cache_dir(&vec![], None).is_err());
    let backend = LocalBackend::open("/p");
    assert_eq!(backend.metadata_path(), "/p/metadata.db");
    let key = Key::from_buffer(&vec![]);
    assert!(backend.cas().key_path(&key).starts_with("/p/cas/af/13/af1349b9"));
}

#[test]
fn many_reads() {
    let key = Key::from_buffer(&vec![1]);
    let (k, content) = LocalBackend::bulk_entry(key.clone(), Ok(Some(vec![1]))).unwrap().unwrap();
    assert!(k.same(&key));
    assert_eq!(content, vec![1]);
    assert!(LocalBackend::bulk_entry(key.clone(), Ok(None)).is_none());
    match LocalBackend::bulk_entry(key, Err(String::from("disk"))) {
        Some(Err(BulkReadError(e))) => assert_eq!(e, "disk"),
        _ => panic!("reading failed"),
    }
}

#[test]
fn many_stores_are_taken_down() {
    let key = |n: u8| Key::from_buffer(&vec![n]);
    let mut result = BulkStoreResult::new();
    result.record(key(1), Ok(true));
    result.record(key(2), Ok(false));
    result.record(key(1), Ok(true));
    result.record(key(3), Err(String::from("full")));
    assert_eq!(result.written.keys().len(), 1);
    assert!(result.written.contains(&key(1)));
    assert!(result.skipped.contains(&key(2)));
    assert!(!result.skipped.contains(&key(1)));
    assert_eq!(result.errors.len(), 1);
    assert_eq!(result.errors[0].1, "full");
}

#[test]
fn sets_of_keys() {
    let mut set = KeySet::new();
    assert!(set.insert(Key::from_buffer(&vec![1])));
    assert!(!set.insert(Key::from_buffer(&vec![1])));
    assert!(set.insert(Key::from_buffer(&vec![2])));
    assert_eq!(set.keys().len(), 2);
}

#[test]
fn caches_in_directories() {
    let user = AbsDirPath::new("/home/user/.cache/hurry").unwrap();
    let cache: FsCache<Unlocked> = FsCache::open_default(&user);
    assert_eq!(cache.lockfile().as_str(), "/home/user/.cache/hurry/ws/.hurry-lock");
    let cache = cache.lock();
    let key = Key::from_buffer(&vec![]);
    let hex = key.to_hex();
    assert_eq!(
        cache.record_path("cargo", &key).unwrap().as_str(),
        format!("/home/user/.cache/hurry/ws/cargo/{hex}")
    );
    assert!(cache.record_path("/etc", &key).is_err());
    assert_eq!(cache.unlock().lockfile().as_str(), "/home/user/.cache/hurry/ws/.hurry-lock");

    let cas = FsCas::open_default(&user);
    let (key, file) = cas.store(&b"content".to_vec());
    assert_eq!(file.as_str(), format!("/home/user/.cache/hurry/cas/{}", key.to_hex()));
    assert_eq!(cas.get(&key).as_str(), file.as_str());
    assert_eq!(FsCas::open_dir(&user).get(&key).as_str().len(), user.as_str().len() + 65);
}
