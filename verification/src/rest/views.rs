//! Parts of the public JSON view of a job.
use vstd::prelude::*;
use crate::jobs::{Job, JobKind, JobStatus};
use crate::text::{push_str};

verus! {

/// Where a finished job's archive is downloaded from.
pub open spec fn download_url_of(job: Job) -> Option<Seq<char>> {
    if job.status == JobStatus::Done {
        match job.kind {
            JobKind::Custom => Some("/api/v1/exports/"@ + job.id@ + "/download"@),
            JobKind::Region => Some("/api/v1/regions/"@ + job.id@ + "/download"@),
        }
    } else {
        None
    }
}

/// The download URL of a job: present once the job is done.
pub fn download_url(job: &Job) -> (u: Option<String>)
    ensures
        match u {
            Some(s) => download_url_of(*job) == Some(s@),
            None => download_url_of(*job) is None,
        },
{
    if job.status != JobStatus::Done {
        return None;
    }
    let mut s = match job.kind {
        JobKind::Custom => String::from_str("/api/v1/exports/"),
        JobKind::Region => String::from_str("/api/v1/regions/"),
    };
    push_str(&mut s, job.id.as_str());
    push_str(&mut s, "/download");
    Some(s)
}

/// A job has a download URL exactly when it is done: a custom export's is
/// `/api/v1/exports/<id>/download` and a region's is
/// `/api/v1/regions/<id>/download`.
pub proof fn lemma_download_url(job: Job)
    ensures
        job.status != JobStatus::Done ==> download_url_of(job) is None,
        (job.status == JobStatus::Done && job.kind == JobKind::Custom) ==> download_url_of(job) == Some(
            "/api/v1/exports/"@ + job.id@ + "/download"@,
        ),
        (job.status == JobStatus::Done && job.kind == JobKind::Region) ==> download_url_of(job) == Some(
            "/api/v1/regions/"@ + job.id@ + "/download"@,
        ),
{
}

} // verus!
