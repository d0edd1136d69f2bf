//! Extract jobs: their kinds, life-cycle states and the fields a job carries.
//!
//! Times are microseconds since the Unix epoch (UTC).
pub mod cleanup;
pub mod engine;
pub mod runner;
pub mod store;

use vstd::prelude::*;
use crate::text::{str_eq, concat};
use crate::jobs::store::StoreError;

verus! {

/// What a job extracts: a user-drawn polygon or a catalogue region.
#[derive(Debug, Clone, Copy, PartialEq, Eq, Structural)]
pub enum JobKind {
    Custom,
    Region,
}

/// Where a job is in its life cycle.
#[derive(Debug, Clone, Copy, PartialEq, Eq, Structural)]
pub enum JobStatus {
    Queued,
    Running,
    Done,
    Failed,
    Expired,
}

/// The stored name of a job kind.
pub open spec fn kind_name(k: JobKind) -> Seq<char> {
    match k {
        JobKind::Custom => "custom"@,
        JobKind::Region => "region"@,
    }
}

/// The stored name of a job status.
pub open spec fn status_name(s: JobStatus) -> Seq<char> {
    match s {
        JobStatus::Queued => "queued"@,
        JobStatus::Running => "running"@,
        JobStatus::Done => "done"@,
        JobStatus::Failed => "failed"@,
        JobStatus::Expired => "expired"@,
    }
}

/// The job kind whose stored name is `s`, if any.
pub open spec fn kind_named(s: Seq<char>) -> Option<JobKind> {
    if s == "custom"@ {
        Some(JobKind::Custom)
    } else if s == "region"@ {
        Some(JobKind::Region)
    } else {
        None
    }
}

/// The job status whose stored name is `s`, if any.
pub open spec fn status_named(s: Seq<char>) -> Option<JobStatus> {
    if s == "queued"@ {
        Some(JobStatus::Queued)
    } else if s == "running"@ {
        Some(JobStatus::Running)
    } else if s == "done"@ {
        Some(JobStatus::Done)
    } else if s == "failed"@ {
        Some(JobStatus::Failed)
    } else if s == "expired"@ {
        Some(JobStatus::Expired)
    } else {
        None
    }
}

impl JobKind {
    /// The name under which the kind is stored and shown.
    pub fn as_str(self) -> (s: &'static str)
        ensures
            s@ == kind_name(self),
    {
        match self {
            JobKind::Custom => "custom",
            JobKind::Region => "region",
        }
    }

    /// Reads a stored kind name back; any other text is a database error.
    pub fn from_stored(s: &str) -> (r: Result<JobKind, StoreError>)
        ensures
            match kind_named(s@) {
                Some(k) => r == Ok::<JobKind, StoreError>(k),
                None => (r matches Err(StoreError::Db(m)) && m@ == "unknown job kind: "@ + s@),
            },
    {
        if str_eq(s, "custom") {
            Ok(JobKind::Custom)
        } else if str_eq(s, "region") {
            Ok(JobKind::Region)
        } else {
            Err(StoreError::Db(concat("unknown job kind: ", s)))
        }
    }
}

impl JobStatus {
    /// The name under which the status is stored and shown.
    pub fn as_str(self) -> (s: &'static str)
        ensures
            s@ == status_name(self),
    {
        match self {
            JobStatus::Queued => "queued",
            JobStatus::Running => "running",
            JobStatus::Done => "done",
            JobStatus::Failed => "failed",
            JobStatus::Expired => "expired",
        }
    }

    /// Reads a stored status name back; any other text is a database error.
    pub fn from_stored(s: &str) -> (r: Result<JobStatus, StoreError>)
        ensures
            match status_named(s@) {
                Some(st) => r == Ok::<JobStatus, StoreError>(st),
                None => (r matches Err(StoreError::Db(m)) && m@ == "unknown job status: "@ + s@),
            },
    {
        if str_eq(s, "queued") {
            Ok(JobStatus::Queued)
        } else if str_eq(s, "running") {
            Ok(JobStatus::Running)
        } else if str_eq(s, "done") {
            Ok(JobStatus::Done)
        } else if str_eq(s, "failed") {
            Ok(JobStatus::Failed)
        } else if str_eq(s, "expired") {
            Ok(JobStatus::Expired)
        } else {
            Err(StoreError::Db(concat("unknown job status: ", s)))
        }
    }
}

/// Reading back the stored name of a kind gives that kind, and no two kinds
/// share a stored name.
pub proof fn lemma_kind_name_roundtrip(k: JobKind)
    ensures
        kind_named(kind_name(k)) == Some(k),
{
    reveal_strlit("custom");
    reveal_strlit("region");
    assert("custom"@[0] != "region"@[0]);
}

/// Reading back the stored name of a status gives that status, and no two
/// statuses share a stored name.
pub proof fn lemma_status_name_roundtrip(s: JobStatus)
    ensures
        status_named(status_name(s)) == Some(s),
{
    reveal_strlit("queued");
    reveal_strlit("running");
    reveal_strlit("done");
    reveal_strlit("failed");
    reveal_strlit("expired");
    assert("queued"@[0] != "running"@[0]);
    assert("queued"@[0] != "done"@[0]);
    assert("queued"@[0] != "failed"@[0]);
    assert("queued"@[0] != "expired"@[0]);
    assert("running"@[0] != "done"@[0]);
    assert("running"@[0] != "failed"@[0]);
    assert("running"@[0] != "expired"@[0]);
    assert("done"@[0] != "failed"@[0]);
    assert("done"@[0] != "expired"@[0]);
    assert("failed"@[0] != "expired"@[0]);
}

/// The names jobs are stored and queried under: kinds `custom` and
/// `region`; statuses `queued`, `running`, `done`, `failed` and `expired`.
pub proof fn lemma_stored_names()
    ensures
        kind_name(JobKind::Custom) == "custom"@,
        kind_name(JobKind::Region) == "region"@,
        status_name(JobStatus::Queued) == "queued"@,
        status_name(JobStatus::Running) == "running"@,
        status_name(JobStatus::Done) == "done"@,
        status_name(JobStatus::Failed) == "failed"@,
        status_name(JobStatus::Expired) == "expired"@,
{
}

/// One extract job. Region jobs use the region id as the job id so a region
/// is only ever generated once at a time.
#[derive(Debug, Clone)]
pub struct Job {
    pub id: String,
    pub kind: JobKind,
    pub status: JobStatus,
    pub client_ip: Option<String>,
    pub region_id: Option<String>,
    /// GeoJSON geometry (Polygon or MultiPolygon) the extract is cut to.
    pub geometry: String,
    pub maxzoom: u8,
    pub estimated_tiles: u64,
    pub file_path: Option<String>,
    pub file_size: Option<u64>,
    pub error: Option<String>,
    pub pinned: bool,
    pub created_at: i64,
    pub started_at: Option<i64>,
    pub finished_at: Option<i64>,
    pub expires_at: Option<i64>,
    pub last_download_at: Option<i64>,
}

/// A job still waiting for or holding a worker.
pub open spec fn status_is_active(s: JobStatus) -> bool {
    s == JobStatus::Queued || s == JobStatus::Running
}

/// The current time in microseconds since the Unix epoch (`chrono::Utc::now`).
/// Nothing is claimed of the value: it is whatever the system clock reads.
#[verifier::external_body]
pub fn now_micros() -> (t: i64) {
    chrono::Utc::now().timestamp_micros()
}

/// Whether `c` is a lowercase hexadecimal digit.
pub open spec fn is_lower_hex(c: char) -> bool {
    ('0' <= c && c <= '9') || ('a' <= c && c <= 'f')
}

/// The shape of a hyphenated lowercase UUID, `xxxxxxxx-xxxx-xxxx-xxxx-xxxxxxxxxxxx`.
pub open spec fn is_hyphenated_uuid(s: Seq<char>) -> bool {
    &&& s.len() == 36
    &&& forall|i: int|
        0 <= i < 36 ==> if i == 8 || i == 13 || i == 18 || i == 23 {
            s[i] == '-'
        } else {
            is_lower_hex(#[trigger] s[i])
        }
}

/// A fresh random job id: `uuid::Uuid::new_v4()` rendered by its `Display`
/// impl, which writes the hyphenated lowercase form. Which id comes out is
/// left open (it is random); only its shape is claimed.
#[verifier::external_body]
pub fn new_job_id() -> (id: String)
    ensures
        is_hyphenated_uuid(id@),
{
    uuid::Uuid::new_v4().to_string()
}

impl Job {
    /// A freshly queued custom export job with a random id, created now.
    pub fn new_custom(geometry: String, maxzoom: u8, estimated_tiles: u64, client_ip: String) -> (job: Job)
        ensures
            is_hyphenated_uuid(job.id@),
            job.kind == JobKind::Custom,
            job.status == JobStatus::Queued,
            job.client_ip == Some(client_ip),
            job.region_id is None,
            job.geometry == geometry,
            job.maxzoom == maxzoom,
            job.estimated_tiles == estimated_tiles,
            job.file_path is None,
            job.file_size is None,
            job.error is None,
            !job.pinned,
            job.started_at is None,
            job.finished_at is None,
            job.expires_at is None,
            job.last_download_at is None,
    {
        Job {
            id: new_job_id(),
            kind: JobKind::Custom,
            status: JobStatus::Queued,
            client_ip: Some(client_ip),
            region_id: None,
            geometry,
            maxzoom,
            estimated_tiles,
            file_path: None,
            file_size: None,
            error: None,
            pinned: false,
            created_at: now_micros(),
            started_at: None,
            finished_at: None,
            expires_at: None,
            last_download_at: None,
        }
    }

    /// A freshly queued region extract job, created now; its id is the region id.
    pub fn new_region(region_id: String, geometry: String, maxzoom: u8, pinned: bool) -> (job: Job)
        ensures
            job.id@ == region_id@,
            job.kind == JobKind::Region,
            job.status == JobStatus::Queued,
            job.client_ip is None,
            job.region_id == Some(region_id),
            job.geometry == geometry,
            job.maxzoom == maxzoom,
            job.estimated_tiles == 0,
            job.file_path is None,
            job.file_size is None,
            job.error is None,
            job.pinned == pinned,
            job.started_at is None,
            job.finished_at is None,
            job.expires_at is None,
            job.last_download_at is None,
    {
        let id = region_id.clone();
        Job {
            id,
            kind: JobKind::Region,
            status: JobStatus::Queued,
            client_ip: None,
            region_id: Some(region_id),
            geometry,
            maxzoom,
            estimated_tiles: 0,
            file_path: None,
            file_size: None,
            error: None,
            pinned,
            created_at: now_micros(),
            started_at: None,
            finished_at: None,
            expires_at: None,
            last_download_at: None,
        }
    }

    /// Whether the job is queued or running.
    pub fn is_active(&self) -> (b: bool)
        ensures
            b == status_is_active(self.status),
    {
        match self.status {
            JobStatus::Queued | JobStatus::Running => true,
            _ => false,
        }
    }
}

/// Field updates applied together with a status transition; `None` leaves
/// the stored field as it was.
#[derive(Debug, Clone, PartialEq)]
pub struct StatusDetail {
    pub error: Option<String>,
    pub file_path: Option<String>,
    pub file_size: Option<u64>,
    pub started_at: Option<i64>,
    pub finished_at: Option<i64>,
    pub expires_at: Option<i64>,
}

impl Default for StatusDetail {
    fn default() -> (d: StatusDetail)
        ensures
            d.error is None,
            d.file_path is None,
            d.file_size is None,
            d.started_at is None,
            d.finished_at is None,
            d.expires_at is None,
    {
        StatusDetail {
            error: None,
            file_path: None,
            file_size: None,
            started_at: None,
            finished_at: None,
            expires_at: None,
        }
    }
}

} // verus!
