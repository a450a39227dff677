use hurry::cas::CourierCas;
use hurry::client::{
    request_id, Answer, ArtifactFile, BulkEntry, CargoRestoreRequest, CargoRestoreResponse,
    CargoSaveRequest, CasBulkWriteKeyError, CasBulkWriteResponse, Courier, CourierRequest, Method,
    SerializeString, UnexpectedStatus,
};
use hurry::cargo::path::QualifiedPath;
use hurry::hash::Key;
use hurry::path::RelFilePath;

fn key() -> Key {
    Key::from_buffer(&vec![])
}

const EMPTY: &str = "af1349b9f5f9a1a6a0404dea36dcc9499bcb25c9adc112b7cc9a93cae41f3262";

#[test]
fn requests_have_addresses() {
    let courier = Courier::new("https://courier.example/");
    assert_eq!(courier.base(), "https://courier.example/");
    let url = |r: CourierRequest| courier.url(&r).unwrap();
    assert_eq!(url(CourierRequest::Ping), "https://courier.example/api/v1/health");
    let cas = format!("https://courier.example/api/v1/cas/{EMPTY}");
    assert_eq!(url(CourierRequest::CasExists(key())), cas);
    assert_eq!(url(CourierRequest::CasRead(key())), cas);
    assert_eq!(url(CourierRequest::CasWrite(key())), cas);
    assert_eq!(
        url(CourierRequest::CargoCacheSave),
        "https://courier.example/api/v1/cache/cargo/save"
    );
    assert_eq!(
        url(CourierRequest::CargoCacheRestore),
        "https://courier.example/api/v1/cache/cargo/restore"
    );
    assert_eq!(
        url(CourierRequest::CasWriteBulk),
        "https://courier.example/api/v1/cas/bulk/write"
    );
    assert_eq!(url(CourierRequest::CasReadBulk), "https://courier.example/api/v1/cas/bulk/read");
}

#[test]
fn bases_are_addresses() {
    let ping = CourierRequest::Ping;
    assert_eq!(
        Courier::new("https://example.net/a/b.html").url(&ping).unwrap(),
        "https://example.net/a/api/v1/health"
    );
    assert_eq!(Courier::new("no address").url(&ping), None);
    assert_eq!(Courier::new("mailto:user@example.net").url(&ping), None);
}

#[test]
fn answers_are_told_by_their_status() {
    let unexpected = |status| Err(UnexpectedStatus { status });
    assert_eq!(CourierRequest::Ping.answer(200), Ok(Answer::Done));
    assert_eq!(CourierRequest::Ping.answer(404), unexpected(404));
    for request in [
        CourierRequest::CasExists(key()),
        CourierRequest::CasRead(key()),
        CourierRequest::CargoCacheRestore,
    ] {
        assert_eq!(request.answer(200), Ok(Answer::Done));
        assert_eq!(request.answer(404), Ok(Answer::Missing));
        assert_eq!(request.answer(201), unexpected(201));
        assert_eq!(request.answer(500), unexpected(500));
    }
    for request in [CourierRequest::CasWrite(key()), CourierRequest::CargoCacheSave] {
        assert_eq!(request.answer(201), Ok(Answer::Done));
        assert_eq!(request.answer(200), unexpected(200));
        assert_eq!(request.answer(404), unexpected(404));
    }
    assert_eq!(CourierRequest::CasWriteBulk.answer(200), Ok(Answer::Done));
    assert_eq!(CourierRequest::CasWriteBulk.answer(299), Ok(Answer::Done));
    assert_eq!(CourierRequest::CasWriteBulk.answer(199), unexpected(199));
    assert_eq!(CourierRequest::CasWriteBulk.answer(300), unexpected(300));
    assert_eq!(CourierRequest::CasReadBulk.answer(500), Ok(Answer::Done));
}

#[test]
fn methods_of_requests() {
    assert_eq!(CourierRequest::Ping.method(), Method::Get);
    assert_eq!(CourierRequest::CasExists(key()).method(), Method::Head);
    assert_eq!(CourierRequest::CasRead(key()).method(), Method::Get);
    assert_eq!(CourierRequest::CasWrite(key()).method(), Method::Put);
    assert_eq!(CourierRequest::CargoCacheSave.method(), Method::Post);
    assert_eq!(CourierRequest::CargoCacheRestore.method(), Method::Post);
    assert_eq!(CourierRequest::CasWriteBulk.method(), Method::Post);
    assert_eq!(CourierRequest::CasReadBulk.method(), Method::Post);
}

#[test]
fn keys_are_hashes_of_content() {
    assert_eq!(key().to_hex(), EMPTY);
    assert_eq!(
        Key::from_buffer(&b"hello world".to_vec()).to_hex(),
        "d74981efa70a0c880b8d8c1985d075dbcbf679b99a5f9914e5aaf96b831a9e24"
    );
    assert!(Key::from_hex(EMPTY).unwrap().same(&key()));
    assert!(Key::from_hex(&EMPTY.to_uppercase()).unwrap().same(&key()));
    assert!(Key::from_hex("af13").is_none());
    assert!(Key::from_hex(&EMPTY[1..]).is_none());
    assert!(Key::from_hex(&EMPTY.replace('9', "g")).is_none());
    assert!(Key::from_bytes(vec![0; 31]).is_none());
    assert_eq!(Key::from_bytes(vec![0xa0; 32]).unwrap().to_hex(), "a0".repeat(32));
}

#[test]
fn archive_entries() {
    let entry = BulkEntry::new(&key(), &vec![1, 2, 3]);
    assert_eq!(entry.name, EMPTY);
    assert_eq!(entry.size, 3);
    assert_eq!(entry.mode, 0o644);
    assert!(BulkEntry::key(&entry.name).unwrap().same(&key()));
    assert!(BulkEntry::key("pax_header").is_none());
}

#[test]
fn stores_in_the_remote_cache() {
    let content = vec![];
    for (exists, upload) in [(Some(true), false), (Some(false), true), (None, true)] {
        let (k, uploaded) = CourierCas::store(&content, exists);
        assert!(k.same(&key()));
        assert_eq!(uploaded, upload);
    }
    assert_eq!(CourierCas::must_get(Some(vec![1])), Ok(vec![1]));
    assert!(CourierCas::must_get(None).is_err());
    let result = CourierCas::store_bulk(CasBulkWriteResponse {
        written: vec![key(), key()],
        skipped: vec![Key::from_buffer(&vec![1])],
        errors: vec![
            CasBulkWriteKeyError { key: key(), error: String::from("full") },
            CasBulkWriteKeyError { key: key(), error: String::from("busy") },
            CasBulkWriteKeyError { key: Key::from_buffer(&vec![1]), error: String::from("x") },
            CasBulkWriteKeyError { key: key(), error: String::from("full") },
        ],
    });
    assert_eq!(result.written.keys().len(), 1);
    assert!(result.skipped.contains(&Key::from_buffer(&vec![1])));
    let mut want = vec![
        (key().to_hex(), "busy"),
        (key().to_hex(), "full"),
        (Key::from_buffer(&vec![1]).to_hex(), "x"),
    ];
    want.sort();
    let errors: Vec<(String, &str)> =
        result.errors.iter().map(|e| (e.key.to_hex(), e.error.as_str())).collect();
    assert_eq!(errors, want);
}

#[test]
fn identifiers_of_requests() {
    assert_eq!(request_id(Some(String::from("abc"))), "abc");
    assert_eq!(request_id(None), "<not set>");
}

#[test]
fn bodies_of_requests() {
    let file = ArtifactFile {
        object_key: key().to_hex(),
        mtime_nanos: 1,
        executable: false,
        path: SerializeString {
            value: QualifiedPath::Rootless(RelFilePath::new("a").unwrap()),
        },
    };
    let response = CargoRestoreResponse { artifacts: vec![file] };
    let asked = CargoRestoreRequest {
        package_name: String::from("serde"),
        package_version: String::from("1.0.0"),
        target: String::from("x86_64-unknown-linux-gnu"),
        library_crate_compilation_unit_hash: String::from("1"),
        build_script_compilation_unit_hash: None,
        build_script_execution_unit_hash: Some(String::from("3")),
    };
    let saved = CargoSaveRequest {
        package_name: asked.package_name.clone(),
        package_version: asked.package_version,
        target: asked.target,
        library_crate_compilation_unit_hash: asked.library_crate_compilation_unit_hash,
        build_script_compilation_unit_hash: asked.build_script_compilation_unit_hash,
        build_script_execution_unit_hash: asked.build_script_execution_unit_hash,
        content_hash: key().to_hex(),
        artifacts: response.artifacts,
    };
    assert_eq!(saved.artifacts.len(), 1);
    assert_eq!(saved.package_name, asked.package_name);
}
