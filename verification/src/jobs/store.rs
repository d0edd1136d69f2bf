//! The job store's row format and errors. The store itself (SQLite) lives
//! with the server; a job is written as a `StoredJob` row and read back from
//! one.
use vstd::prelude::*;
use crate::jobs::{Job, JobKind, JobStatus, kind_name, status_name, kind_named, status_named,
    lemma_kind_name_roundtrip, lemma_status_name_roundtrip};
use crate::text::concat;

verus! {

/// Failure of a job-store operation.
#[derive(Debug)]
pub enum StoreError {
    Db(String),
    NotFound(String),
}

impl StoreError {
    /// The human-readable message of the error.
    pub fn message(&self) -> (m: String)
        ensures
            m@ == match self {
                StoreError::Db(d) => "database error: "@ + d@,
                StoreError::NotFound(id) => "job not found: "@ + id@,
            },
    {
        match self {
            StoreError::Db(d) => concat("database error: ", d.as_str()),
            StoreError::NotFound(id) => concat("job not found: ", id.as_str()),
        }
    }
}

/// A job as one database row: kind and status by name, integers as the
/// signed 64-bit values SQLite holds, `pinned` as 0 or 1.
#[derive(Debug)]
pub struct StoredJob {
    pub id: String,
    pub kind: String,
    pub status: String,
    pub client_ip: Option<String>,
    pub region_id: Option<String>,
    pub geometry: String,
    pub maxzoom: i64,
    pub estimated_tiles: i64,
    pub file_path: Option<String>,
    pub file_size: Option<i64>,
    pub error: Option<String>,
    pub pinned: i64,
    pub created_at: i64,
    pub started_at: Option<i64>,
    pub finished_at: Option<i64>,
    pub expires_at: Option<i64>,
    pub last_download_at: Option<i64>,
}

/// The stored form of an optional size.
pub open spec fn size_to_stored(v: Option<u64>) -> Option<i64> {
    match v {
        Some(x) => Some(x as i64),
        None => None,
    }
}

/// An optional size read back from its stored form.
pub open spec fn size_from_stored(v: Option<i64>) -> Option<u64> {
    match v {
        Some(x) => Some(x as u64),
        None => None,
    }
}

/// The row a job is written as (its strings are copies of the job's).
pub open spec fn row_matches(r: StoredJob, job: Job) -> bool {
    &&& r.id == job.id
    &&& r.kind@ == kind_name(job.kind)
    &&& r.status@ == status_name(job.status)
    &&& r.client_ip == job.client_ip
    &&& r.region_id == job.region_id
    &&& r.geometry == job.geometry
    &&& r.maxzoom == job.maxzoom as i64
    &&& r.estimated_tiles == job.estimated_tiles as i64
    &&& r.file_path == job.file_path
    &&& r.file_size == size_to_stored(job.file_size)
    &&& r.error == job.error
    &&& r.pinned == if job.pinned { 1i64 } else { 0i64 }
    &&& r.created_at == job.created_at
    &&& r.started_at == job.started_at
    &&& r.finished_at == job.finished_at
    &&& r.expires_at == job.expires_at
    &&& r.last_download_at == job.last_download_at
}

/// The job a row reads back as, given its decoded kind and status: integer
/// columns are cast back (`as u8`, `as u64`) and `pinned` is any non-zero value.
pub open spec fn job_matches(job: Job, r: StoredJob, kind: JobKind, status: JobStatus) -> bool {
    &&& job.id == r.id
    &&& job.kind == kind
    &&& job.status == status
    &&& job.client_ip == r.client_ip
    &&& job.region_id == r.region_id
    &&& job.geometry == r.geometry
    &&& job.maxzoom == r.maxzoom as u8
    &&& job.estimated_tiles == r.estimated_tiles as u64
    &&& job.file_path == r.file_path
    &&& job.file_size == size_from_stored(r.file_size)
    &&& job.error == r.error
    &&& job.pinned == (r.pinned != 0)
    &&& job.created_at == r.created_at
    &&& job.started_at == r.started_at
    &&& job.finished_at == r.finished_at
    &&& job.expires_at == r.expires_at
    &&& job.last_download_at == r.last_download_at
}

fn clone_opt_string(o: &Option<String>) -> (r: Option<String>)
    ensures
        r == *o,
{
    match o {
        Some(s) => Some(s.clone()),
        None => None,
    }
}

impl Job {
    /// The row this job is written as.
    pub fn to_stored(&self) -> (r: StoredJob)
        ensures
            row_matches(r, *self),
    {
        StoredJob {
            id: self.id.clone(),
            kind: String::from_str(self.kind.as_str()),
            status: String::from_str(self.status.as_str()),
            client_ip: clone_opt_string(&self.client_ip),
            region_id: clone_opt_string(&self.region_id),
            geometry: self.geometry.clone(),
            maxzoom: self.maxzoom as i64,
            estimated_tiles: self.estimated_tiles as i64,
            file_path: clone_opt_string(&self.file_path),
            file_size: match self.file_size {
                Some(x) => Some(x as i64),
                None => None,
            },
            error: clone_opt_string(&self.error),
            pinned: if self.pinned { 1 } else { 0 },
            created_at: self.created_at,
            started_at: self.started_at,
            finished_at: self.finished_at,
            expires_at: self.expires_at,
            last_download_at: self.last_download_at,
        }
    }

    /// Reads a job back from its row; an unknown kind or status name is a
    /// database error.
    pub fn from_stored(r: StoredJob) -> (res: Result<Job, StoreError>)
        ensures
            match (kind_named(r.kind@), status_named(r.status@)) {
                (Some(k), Some(s)) => (res matches Ok(job) && job_matches(job, r, k, s)),
                (None, _) => (res matches Err(StoreError::Db(m)) && m@ == "unknown job kind: "@ + r.kind@),
                (Some(_), None) => (res matches Err(StoreError::Db(m)) && m@ == "unknown job status: "@ + r.status@),
            },
    {
        let kind = JobKind::from_stored(r.kind.as_str())?;
        let status = JobStatus::from_stored(r.status.as_str())?;
        Ok(Job {
            id: r.id,
            kind,
            status,
            client_ip: r.client_ip,
            region_id: r.region_id,
            geometry: r.geometry,
            maxzoom: r.maxzoom as u8,
            estimated_tiles: r.estimated_tiles as u64,
            file_path: r.file_path,
            file_size: match r.file_size {
                Some(x) => Some(x as u64),
                None => None,
            },
            error: r.error,
            pinned: r.pinned != 0,
            created_at: r.created_at,
            started_at: r.started_at,
            finished_at: r.finished_at,
            expires_at: r.expires_at,
            last_download_at: r.last_download_at,
        })
    }
}

/// Reading back the row a job was written as gives that job again: every
/// field survives the round trip, including tile counts and sizes beyond
/// `i64::MAX` (stored as their two's-complement bits).
pub proof fn lemma_stored_roundtrip(job: Job, r: StoredJob, back: Job)
    requires
        row_matches(r, job),
        job_matches(back, r, kind_named(r.kind@)->0, status_named(r.status@)->0),
    ensures
        kind_named(r.kind@) == Some(job.kind),
        status_named(r.status@) == Some(job.status),
        back == job,
{
    lemma_kind_name_roundtrip(job.kind);
    lemma_status_name_roundtrip(job.status);
    let m = job.maxzoom;
    let t = job.estimated_tiles;
    assert((m as i64) as u8 == m) by (bit_vector);
    assert((t as i64) as u64 == t) by (bit_vector);
    match job.file_size {
        Some(x) => {
            assert((x as i64) as u64 == x) by (bit_vector);
        },
        None => {},
    }
}

} // verus!
