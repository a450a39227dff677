//! What is asked of the remote cache, Courier, and what its answers mean.

use vstd::prelude::*;
use vstd::string::*;

use crate::cargo::path::QualifiedPath;
use crate::hash;
use crate::hash::Key;
use crate::text;

verus! {

/// What `url::Url::join` makes of a base and a reference, both as text: the text of
/// the joined address. `None` where the base is no address or the reference cannot
/// be joined to it.
pub uninterp spec fn joined_url(base: Seq<char>, reference: Seq<char>) -> Option<Seq<char>>;

/// `url::Url::join`, for a base that is given as text. Which address comes out is
/// named, not described.
#[verifier::external_body]
pub(crate) fn join_url(base: &str, reference: &str) -> (r: Option<String>)
    ensures
        match r {
            Some(address) => joined_url(base@, reference@) == Some(address@),
            None => joined_url(base@, reference@) is None,
        },
{
    url::Url::parse(base).ok()?.join(reference).ok().map(|u| u.to_string())
}

/// The client of the remote cache.
#[derive(Debug)]
pub struct Courier {
    base: String,
}

impl View for Courier {
    type V = Seq<char>;

    closed spec fn view(&self) -> Seq<char> {
        self.base@
    }
}

/// What is asked of the remote cache.
#[derive(Debug)]
pub enum CourierRequest {
    /// Whether the cache can be reached.
    Ping,
    /// Whether some content is there.
    CasExists(Key),
    /// Some content.
    CasRead(Key),
    /// To store some content.
    CasWrite(Key),
    /// To store what units there are.
    CargoCacheSave,
    /// What units there are.
    CargoCacheRestore,
    /// To store many pieces of content.
    CasWriteBulk,
    /// Many pieces of content.
    CasReadBulk,
}

/// How a request is sent.
#[derive(Debug, Clone, Copy, PartialEq, Eq, Structural)]
pub enum Method {
    Get,
    Head,
    Put,
    Post,
}

/// What an answer means.
#[derive(Debug, Clone, Copy, PartialEq, Eq, Structural)]
pub enum Answer {
    /// What was asked for was done, or is in the body.
    Done,
    /// What was asked for is not there.
    Missing,
}

/// An answer with a status that the request does not have.
#[derive(Debug, Clone, Copy, PartialEq, Eq, Structural)]
pub struct UnexpectedStatus {
    pub status: u16,
}

/// Where a request is sent to, below the base address.
pub open spec fn path_of(request: CourierRequest) -> Seq<char> {
    match request {
        CourierRequest::Ping => "api/v1/health"@,
        CourierRequest::CasExists(key) => "api/v1/cas/"@ + hash::hex_text(key@),
        CourierRequest::CasRead(key) => "api/v1/cas/"@ + hash::hex_text(key@),
        CourierRequest::CasWrite(key) => "api/v1/cas/"@ + hash::hex_text(key@),
        CourierRequest::CargoCacheSave => "api/v1/cache/cargo/save"@,
        CourierRequest::CargoCacheRestore => "api/v1/cache/cargo/restore"@,
        CourierRequest::CasWriteBulk => "api/v1/cas/bulk/write"@,
        CourierRequest::CasReadBulk => "api/v1/cas/bulk/read"@,
    }
}

/// How a request is sent.
pub open spec fn method_of(request: CourierRequest) -> Method {
    match request {
        CourierRequest::Ping => Method::Get,
        CourierRequest::CasExists(_) => Method::Head,
        CourierRequest::CasRead(_) => Method::Get,
        CourierRequest::CasWrite(_) => Method::Put,
        CourierRequest::CargoCacheSave => Method::Post,
        CourierRequest::CargoCacheRestore => Method::Post,
        CourierRequest::CasWriteBulk => Method::Post,
        CourierRequest::CasReadBulk => Method::Post,
    }
}

/// What the status of an answer means. What is read in bulk comes with whatever
/// status.
pub open spec fn answer_of(request: CourierRequest, status: u16) -> Option<Answer> {
    match request {
        CourierRequest::Ping => if status == 200 {
            Some(Answer::Done)
        } else {
            None
        },
        CourierRequest::CasExists(_)
        | CourierRequest::CasRead(_)
        | CourierRequest::CargoCacheRestore => if status == 200 {
            Some(Answer::Done)
        } else if status == 404 {
            Some(Answer::Missing)
        } else {
            None
        },
        CourierRequest::CasWrite(_) | CourierRequest::CargoCacheSave => if status == 201 {
            Some(Answer::Done)
        } else {
            None
        },
        CourierRequest::CasWriteBulk => if 200 <= status < 300 {
            Some(Answer::Done)
        } else {
            None
        },
        CourierRequest::CasReadBulk => Some(Answer::Done),
    }
}

impl CourierRequest {
    /// Where the request is sent to, below the base address.
    pub fn path(&self) -> (r: String)
        ensures
            r@ == path_of(*self),
    {
        match self {
            CourierRequest::Ping => text::copy("api/v1/health"),
            CourierRequest::CasExists(key) => text::concat("api/v1/cas/", key.to_hex().as_str()),
            CourierRequest::CasRead(key) => text::concat("api/v1/cas/", key.to_hex().as_str()),
            CourierRequest::CasWrite(key) => text::concat("api/v1/cas/", key.to_hex().as_str()),
            CourierRequest::CargoCacheSave => text::copy("api/v1/cache/cargo/save"),
            CourierRequest::CargoCacheRestore => text::copy("api/v1/cache/cargo/restore"),
            CourierRequest::CasWriteBulk => text::copy("api/v1/cas/bulk/write"),
            CourierRequest::CasReadBulk => text::copy("api/v1/cas/bulk/read"),
        }
    }

    /// How the request is sent.
    pub fn method(&self) -> (r: Method)
        ensures
            r == method_of(*self),
    {
        match self {
            CourierRequest::Ping => Method::Get,
            CourierRequest::CasExists(_) => Method::Head,
            CourierRequest::CasRead(_) => Method::Get,
            CourierRequest::CasWrite(_) => Method::Put,
            CourierRequest::CargoCacheSave => Method::Post,
            CourierRequest::CargoCacheRestore => Method::Post,
            CourierRequest::CasWriteBulk => Method::Post,
            CourierRequest::CasReadBulk => Method::Post,
        }
    }

    /// What the status of the answer means.
    pub fn answer(&self, status: u16) -> (r: Result<Answer, UnexpectedStatus>)
        ensures
            match r {
                Ok(a) => answer_of(*self, status) == Some(a),
                Err(e) => answer_of(*self, status) is None && e.status == status,
            },
    {
        let unexpected = UnexpectedStatus { status };
        match self {
            CourierRequest::Ping => if status == 200 {
                Ok(Answer::Done)
            } else {
                Err(unexpected)
            },
            CourierRequest::CasExists(_)
            | CourierRequest::CasRead(_)
            | CourierRequest::CargoCacheRestore => if status == 200 {
                Ok(Answer::Done)
            } else if status == 404 {
                Ok(Answer::Missing)
            } else {
                Err(unexpected)
            },
            CourierRequest::CasWrite(_) | CourierRequest::CargoCacheSave => if status == 201 {
                Ok(Answer::Done)
            } else {
                Err(unexpected)
            },
            CourierRequest::CasWriteBulk => if 200 <= status && status < 300 {
                Ok(Answer::Done)
            } else {
                Err(unexpected)
            },
            CourierRequest::CasReadBulk => Ok(Answer::Done),
        }
    }
}

impl Courier {
    /// The client of the cache at a base address.
    pub fn new(base: &str) -> (r: Courier)
        ensures
            r@ == base@,
    {
        Courier { base: text::copy(base) }
    }

    /// The base address.
    pub fn base(&self) -> (r: &str)
        ensures
            r@ == self@,
    {
        self.base.as_str()
    }

    /// The address that a request is sent to, if the base is one that it can be
    /// joined to.
    pub fn url(&self, request: &CourierRequest) -> (r: Option<String>)
        ensures
            match r {
                Some(address) => joined_url(self@, path_of(*request)) == Some(address@),
                None => joined_url(self@, path_of(*request)) is None,
            },
    {
        join_url(self.base.as_str(), request.path().as_str())
    }
}

/// The content of a key is asked about, read and written at one address, and at
/// different ones for different keys.
pub proof fn law_keys_have_their_own_paths(a: Key, b: Key)
    ensures
        path_of(CourierRequest::CasExists(a)) == path_of(CourierRequest::CasRead(a)),
        path_of(CourierRequest::CasExists(a)) == path_of(CourierRequest::CasWrite(a)),
        path_of(CourierRequest::CasRead(a)) == path_of(CourierRequest::CasRead(b)) ==> a@ == b@,
{
    let prefix = "api/v1/cas/"@;
    let n = prefix.len() as int;
    if path_of(CourierRequest::CasRead(a)) == path_of(CourierRequest::CasRead(b)) {
        assert((prefix + hash::hex_text(a@)).skip(n) =~= hash::hex_text(a@));
        assert((prefix + hash::hex_text(b@)).skip(n) =~= hash::hex_text(b@));
        hash::lemma_hex_text_injective(a@, b@);
    }
}

/// An entry of the archive in which many pieces of content are sent.
#[derive(Debug)]
pub struct BulkEntry {
    /// The key, as text.
    pub name: String,
    pub size: u64,
    /// The permissions.
    pub mode: u32,
}

/// The permissions of an archive entry: read and write for its owner, read for all
/// others.
pub const ENTRY_MODE: u32 = 0o644;

impl BulkEntry {
    /// The entry for some content.
    pub fn new(key: &Key, content: &Vec<u8>) -> (r: BulkEntry)
        ensures
            r.name@ == hash::hex_text(key@),
            r.size == content@.len(),
            r.mode == ENTRY_MODE,
    {
        BulkEntry { name: key.to_hex(), size: content.len() as u64, mode: ENTRY_MODE }
    }

    /// The key of an entry, if its name is one.
    pub fn key(name: &str) -> (r: Option<Key>)
        ensures
            match r {
                Some(k) => hash::is_hex(name@) && name@.len() == 64 && k@ == hash::hex_bytes(name@),
                None => !(hash::is_hex(name@) && name@.len() == 64),
            },
    {
        Key::from_hex(name)
    }
}

/// The key under which content was sent is that under which it is received.
pub proof fn law_entry_names_are_read_back(key: Seq<u8>)
    requires
        key.len() == 32,
    ensures
        hash::is_hex(hash::hex_text(key)),
        hash::hex_text(key).len() == 64,
        hash::hex_bytes(hash::hex_text(key)) == key,
{
    hash::law_hex_text_is_read_back(key);
}

/// What came of storing many pieces of content.
#[derive(Debug)]
pub struct CasBulkWriteResponse {
    pub written: Vec<Key>,
    pub skipped: Vec<Key>,
    pub errors: Vec<CasBulkWriteKeyError>,
}

/// Why some content was not stored.
#[derive(Debug)]
pub struct CasBulkWriteKeyError {
    pub key: Key,
    pub error: String,
}

/// A file of a unit in the remote cache.
#[derive(Debug)]
pub struct ArtifactFile {
    pub object_key: String,
    pub mtime_nanos: u128,
    pub executable: bool,
    pub path: SerializeString<QualifiedPath>,
}

/// A value that is sent as a string that holds its JSON.
#[derive(Debug)]
pub struct SerializeString<T> {
    pub value: T,
}

/// What is stored of a package.
#[derive(Debug)]
pub struct CargoSaveRequest {
    pub package_name: String,
    pub package_version: String,
    pub target: String,
    pub library_crate_compilation_unit_hash: String,
    pub build_script_compilation_unit_hash: Option<String>,
    pub build_script_execution_unit_hash: Option<String>,
    pub content_hash: String,
    pub artifacts: Vec<ArtifactFile>,
}

/// Which package is asked for.
#[derive(Debug)]
pub struct CargoRestoreRequest {
    pub package_name: String,
    pub package_version: String,
    pub target: String,
    pub library_crate_compilation_unit_hash: String,
    pub build_script_compilation_unit_hash: Option<String>,
    pub build_script_execution_unit_hash: Option<String>,
}

/// What is stored of a package that was asked for.
#[derive(Debug)]
pub struct CargoRestoreResponse {
    pub artifacts: Vec<ArtifactFile>,
}

/// The identifier of a request, given its header where that is text.
pub fn request_id(header: Option<String>) -> (r: String)
    ensures
        r@ == (match header {
            Some(id) => id@,
            None => "<not set>"@,
        }),
{
    match header {
        Some(id) => id,
        None => text::copy("<not set>"),
    }
}

/// Each request is sent to its own address, in its own way.
pub proof fn law_requests_have_their_addresses(request: CourierRequest)
    ensures
        request is Ping ==> path_of(request) == "api/v1/health"@ && method_of(request)
            == Method::Get,
        request matches CourierRequest::CasExists(key) ==> path_of(request) == "api/v1/cas/"@
            + hash::hex_text(key@) && method_of(request) == Method::Head,
        request matches CourierRequest::CasRead(key) ==> path_of(request) == "api/v1/cas/"@
            + hash::hex_text(key@) && method_of(request) == Method::Get,
        request matches CourierRequest::CasWrite(key) ==> path_of(request) == "api/v1/cas/"@
            + hash::hex_text(key@) && method_of(request) == Method::Put,
        request is CargoCacheSave ==> path_of(request) == "api/v1/cache/cargo/save"@ && method_of(
            request,
        ) == Method::Post,
        request is CargoCacheRestore ==> path_of(request) == "api/v1/cache/cargo/restore"@
            && method_of(request) == Method::Post,
        request is CasWriteBulk ==> path_of(request) == "api/v1/cas/bulk/write"@ && method_of(
            request,
        ) == Method::Post,
        request is CasReadBulk ==> path_of(request) == "api/v1/cas/bulk/read"@ && method_of(request)
            == Method::Post,
{
}

/// What is asked for can be missing only where something is looked for, and is where the
/// status says that it was not found. What is asked for was done where the status is the
/// one for it: that of success, for what is stored that of creation, for a bulk of writes
/// any success, and for a bulk of reads any status. Any other status is unexpected.
pub proof fn law_statuses_mean_what_they_say(request: CourierRequest, status: u16)
    ensures
        answer_of(request, status) == Some(Answer::Missing) <==> status == 404 && (
        request is CasExists || request is CasRead || request is CargoCacheRestore),
        answer_of(request, status) == Some(Answer::Done) <==> {
            ||| status == 200 && (request is Ping || request is CasExists || request is CasRead
                || request is CargoCacheRestore)
            ||| status == 201 && (request is CasWrite || request is CargoCacheSave)
            ||| 200 <= status <= 299 && request is CasWriteBulk
            ||| request is CasReadBulk
        },
{
}

/// The owner of an entry may read and write it, and all others may read it.
pub proof fn law_entries_are_written_by_their_owners()
    ensures
        ENTRY_MODE / 64 == 4 + 2,
        ENTRY_MODE / 8 % 8 == 4,
        ENTRY_MODE % 8 == 4,
{
}

} // verus!
