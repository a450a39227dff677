//! Waiting for an upload that the daemon does.

use vstd::prelude::*;
use vstd::string::*;

use crate::cargo::cache::save::SaveProgress;
use crate::text;

verus! {

/// How far an upload has come.
#[derive(Debug, Clone, Copy, PartialEq, Eq, Structural)]
pub enum CargoUploadStatus {
    Complete,
    InProgress(SaveProgress),
}

/// The daemon does not know of the upload.
#[derive(Debug, Clone, Copy, PartialEq, Eq, Structural)]
pub struct NoUploadStatus;

/// What has been shown of an upload.
#[derive(Debug, Clone, Copy, PartialEq, Eq, Structural)]
pub struct UploadWatch {
    last: SaveProgress,
}

/// What has come to what was shown before.
#[derive(Debug, Clone, Copy, PartialEq, Eq, Structural)]
pub struct ProgressDelta {
    pub bytes: u64,
    pub files: u64,
    pub units: u64,
    /// By how many there are fewer units in all.
    pub fewer_units: u64,
}

/// What is done about the status of an upload.
#[derive(Debug, Clone, Copy, PartialEq, Eq, Structural)]
pub enum WatchStep {
    /// The upload is over.
    Finish,
    /// The progress is shown, and the status asked for again.
    Show(ProgressDelta),
}

/// By how much a number is more than another, and zero if it is not.
pub open spec fn more_than(a: u64, b: u64) -> u64 {
    if a > b {
        (a - b) as u64
    } else {
        0
    }
}

/// What has come to what was shown before.
pub open spec fn delta_of(last: SaveProgress, now: SaveProgress) -> ProgressDelta {
    ProgressDelta {
        bytes: more_than(now.uploaded_bytes, last.uploaded_bytes),
        files: more_than(now.uploaded_files, last.uploaded_files),
        units: more_than(now.uploaded_units, last.uploaded_units),
        fewer_units: more_than(last.total_units, now.total_units),
    }
}

/// The progress of an upload of which nothing was done.
pub open spec fn no_progress() -> SaveProgress {
    SaveProgress { uploaded_units: 0, total_units: 0, uploaded_files: 0, uploaded_bytes: 0 }
}

/// What is done about a status, and what has been shown after it.
pub open spec fn watched(last: SaveProgress, status: Option<CargoUploadStatus>) -> (
    Option<WatchStep>,
    SaveProgress,
) {
    match status {
        None => (None, last),
        Some(CargoUploadStatus::Complete) => (Some(WatchStep::Finish), last),
        Some(CargoUploadStatus::InProgress(now)) => (
            Some(WatchStep::Show(delta_of(last, now))),
            now,
        ),
    }
}

fn excess(a: u64, b: u64) -> (r: u64)
    ensures
        r == more_than(a, b),
{
    if a > b {
        a - b
    } else {
        0
    }
}

impl View for UploadWatch {
    type V = SaveProgress;

    closed spec fn view(&self) -> SaveProgress {
        self.last
    }
}

impl UploadWatch {
    /// Nothing has been shown.
    pub fn new() -> (r: UploadWatch)
        ensures
            r@ == no_progress(),
    {
        UploadWatch {
            last: SaveProgress {
                uploaded_units: 0,
                total_units: 0,
                uploaded_files: 0,
                uploaded_bytes: 0,
            },
        }
    }

    /// What is done about the status that the daemon gives.
    pub fn update(&mut self, status: Option<CargoUploadStatus>) -> (r: Result<
        WatchStep,
        NoUploadStatus,
    >)
        ensures
            watched(old(self)@, status) == (
                match r {
                    Ok(step) => Some(step),
                    Err(_) => None,
                },
                final(self)@,
            ),
            match status {
                None => r is Err && final(self)@ == old(self)@,
                Some(CargoUploadStatus::Complete) => {
                    &&& r == Ok::<WatchStep, NoUploadStatus>(WatchStep::Finish)
                    &&& final(self)@ == old(self)@
                },
                Some(CargoUploadStatus::InProgress(now)) => {
                    &&& r == Ok::<WatchStep, NoUploadStatus>(
                        WatchStep::Show(delta_of(old(self)@, now)),
                    )
                    &&& final(self)@ == now
                },
            },
    {
        match status {
            None => Err(NoUploadStatus),
            Some(CargoUploadStatus::Complete) => Ok(WatchStep::Finish),
            Some(CargoUploadStatus::InProgress(now)) => {
                let delta = ProgressDelta {
                    bytes: excess(now.uploaded_bytes, self.last.uploaded_bytes),
                    files: excess(now.uploaded_files, self.last.uploaded_files),
                    units: excess(now.uploaded_units, self.last.uploaded_units),
                    fewer_units: excess(self.last.total_units, now.total_units),
                };
                self.last = now;
                Ok(WatchStep::Show(delta))
            },
        }
    }
}

/// What is shown of some progress, in a row, adds up to the last of it, for an upload
/// that does not go back.
pub open spec fn shown_bytes(last: SaveProgress, all: Seq<SaveProgress>) -> int
    decreases all.len(),
{
    if all.len() == 0 {
        0
    } else {
        delta_of(last, all[0]).bytes + shown_bytes(all[0], all.skip(1))
    }
}

/// What is shown of an upload that does not go back adds up to what was uploaded.
pub proof fn law_shown_progress_adds_up(last: SaveProgress, all: Seq<SaveProgress>)
    requires
        all.len() > 0,
        last.uploaded_bytes <= all[0].uploaded_bytes,
        forall|i: int, j: int|
            #![trigger all[i], all[j]]
            0 <= i <= j < all.len() ==> all[i].uploaded_bytes <= all[j].uploaded_bytes,
    ensures
        last.uploaded_bytes + shown_bytes(last, all) == all.last().uploaded_bytes,
    decreases all.len(),
{
    let rest = all.skip(1);
    if rest.len() > 0 {
        assert(rest[0] == all[1]);
        assert forall|i: int, j: int|
            #![trigger rest[i], rest[j]]
            0 <= i <= j < rest.len() implies rest[i].uploaded_bytes <= rest[j].uploaded_bytes by {
            assert(rest[i] == all[i + 1] && rest[j] == all[j + 1]);
        }
        law_shown_progress_adds_up(all[0], rest);
        assert(rest.last() == all.last());
    } else {
        reveal_with_fuel(shown_bytes, 2);
    }
}

/// Where a daemon is asked about uploads: for one, or for the status of one.
pub open spec fn upload_address(daemon: Seq<char>, status: bool) -> Seq<char> {
    "http://"@ + daemon + (if status {
        "/api/v0/cargo/status"@
    } else {
        "/api/v0/cargo/upload"@
    })
}

/// Where the daemon is asked for the status of an upload.
pub fn status_endpoint(daemon: &str) -> (r: String)
    ensures
        r@ == upload_address(daemon@, true),
        r@ == "http://"@ + daemon@ + "/api/v0/cargo/status"@,
{
    text::concat3("http://", daemon, "/api/v0/cargo/status")
}

/// Where the daemon is asked for an upload.
pub fn upload_endpoint(daemon: &str) -> (r: String)
    ensures
        r@ == upload_address(daemon@, false),
        r@ == "http://"@ + daemon@ + "/api/v0/cargo/upload"@,
{
    text::concat3("http://", daemon, "/api/v0/cargo/upload")
}

/// Nothing was done of an upload at first. What is shown of each number is by how much it
/// has grown, or nothing where it has not. Of the units in all it is by how much they have
/// become fewer.
pub proof fn law_shown_progress_is_what_has_come(last: SaveProgress, now: SaveProgress)
    ensures
        no_progress().uploaded_units == 0 && no_progress().total_units == 0,
        no_progress().uploaded_files == 0 && no_progress().uploaded_bytes == 0,
        ({
            let d = delta_of(last, now);
            &&& last.uploaded_bytes <= now.uploaded_bytes ==> last.uploaded_bytes + d.bytes
                == now.uploaded_bytes
            &&& last.uploaded_bytes > now.uploaded_bytes ==> d.bytes == 0
            &&& last.uploaded_files <= now.uploaded_files ==> last.uploaded_files + d.files
                == now.uploaded_files
            &&& last.uploaded_files > now.uploaded_files ==> d.files == 0
            &&& last.uploaded_units <= now.uploaded_units ==> last.uploaded_units + d.units
                == now.uploaded_units
            &&& last.uploaded_units > now.uploaded_units ==> d.units == 0
            &&& now.total_units <= last.total_units ==> now.total_units + d.fewer_units
                == last.total_units
            &&& now.total_units > last.total_units ==> d.fewer_units == 0
        }),
{
}

/// An upload is asked for at one address of a daemon, and its status at another.
pub proof fn law_uploads_have_their_addresses(daemon: Seq<char>)
    ensures
        upload_address(daemon, true) == "http://"@ + daemon + "/api/v0/cargo/status"@,
        upload_address(daemon, false) == "http://"@ + daemon + "/api/v0/cargo/upload"@,
{
}

/// A watch ends exactly where the upload is complete, and fails exactly where the daemon gives
/// no status. Otherwise what is new is shown, and counts as shown from then on: what two
/// statuses show in turn is together what the second would have shown alone.
pub proof fn law_nothing_is_shown_twice(last: SaveProgress, a: SaveProgress, b: SaveProgress)
    requires
        last.uploaded_units <= a.uploaded_units <= b.uploaded_units,
        last.uploaded_files <= a.uploaded_files <= b.uploaded_files,
        last.uploaded_bytes <= a.uploaded_bytes <= b.uploaded_bytes,
        last.total_units >= a.total_units >= b.total_units,
    ensures
        watched(last, None) == (None::<WatchStep>, last),
        watched(last, Some(CargoUploadStatus::Complete)) == (Some(WatchStep::Finish), last),
        ({
            let first = watched(last, Some(CargoUploadStatus::InProgress(a)));
            let second = watched(first.1, Some(CargoUploadStatus::InProgress(b)));
            let alone = watched(last, Some(CargoUploadStatus::InProgress(b)));
            &&& first.1 == a && second.1 == b
            &&& first.0 matches Some(WatchStep::Show(x)) && second.0 matches Some(
                WatchStep::Show(y),
            ) && alone.0 matches Some(WatchStep::Show(z)) && {
                &&& x.units + y.units == z.units == b.uploaded_units - last.uploaded_units
                &&& x.files + y.files == z.files == b.uploaded_files - last.uploaded_files
                &&& x.bytes + y.bytes == z.bytes == b.uploaded_bytes - last.uploaded_bytes
                &&& x.fewer_units + y.fewer_units == z.fewer_units == last.total_units
                    - b.total_units
            }
        }),
{
}

} // verus!
