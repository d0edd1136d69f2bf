//! Which file a download request is served, or why it is refused.
use vstd::prelude::*;
use crate::error::ApiError;
use crate::jobs::{Job, JobKind, JobStatus, status_name};
use crate::text::{concat, push_str};

verus! {

/// The outcome of a download request for job `id` of the given kind:
/// `Ok(path)` with the archive to serve, or the error text and class.
pub enum DownloadOutcome {
    Serve(Seq<char>),
    NotFound(Seq<char>),
    Gone(Seq<char>),
}

/// A download of job `id` (of kind `kind`), given the job stored under that
/// id and whether the file it records is on disk: unknown or other-kind
/// jobs are not found; expired jobs are gone; unfinished jobs are not found;
/// a done job whose file is missing is gone; otherwise its file is served.
pub open spec fn download_outcome(id: Seq<char>, kind: JobKind, job: Option<Job>, file_exists: bool) -> DownloadOutcome {
    match job {
        None => DownloadOutcome::NotFound("unknown job: "@ + id),
        Some(j) => if j.kind != kind {
            DownloadOutcome::NotFound("unknown job: "@ + id)
        } else if j.status == JobStatus::Expired {
            DownloadOutcome::Gone("this download has expired"@)
        } else if j.status != JobStatus::Done {
            DownloadOutcome::NotFound("job is not finished (status: "@ + status_name(j.status) + ")"@)
        } else {
            match j.file_path {
                Some(p) => if file_exists {
                    DownloadOutcome::Serve(p@)
                } else {
                    DownloadOutcome::Gone("the archive is no longer available"@)
                },
                None => DownloadOutcome::Gone("the archive is no longer available"@),
            }
        },
    }
}

/// A download result read against `download_outcome`.
pub open spec fn download_matches(r: Result<String, ApiError>, o: DownloadOutcome) -> bool {
    match o {
        DownloadOutcome::Serve(p) => r matches Ok(s) && s@ == p,
        DownloadOutcome::NotFound(m) => r matches Err(ApiError::NotFound(e)) && e@ == m,
        DownloadOutcome::Gone(m) => r matches Err(ApiError::Gone(e)) && e@ == m,
    }
}

/// Decides a download request (see `download_outcome`); `file_exists` says
/// whether the file the stored job records is on disk.
pub fn plan_download(id: &str, kind: JobKind, job: &Option<Job>, file_exists: bool) -> (r: Result<String, ApiError>)
    ensures
        download_matches(r, download_outcome(id@, kind, *job, file_exists)),
{
    let j = match job {
        None => {
            return Err(ApiError::NotFound(concat("unknown job: ", id)));
        },
        Some(j) => j,
    };
    if j.kind != kind {
        return Err(ApiError::NotFound(concat("unknown job: ", id)));
    }
    match j.status {
        JobStatus::Done => {},
        JobStatus::Expired => {
            return Err(ApiError::Gone(String::from_str("this download has expired")));
        },
        other => {
            let mut m = String::from_str("job is not finished (status: ");
            push_str(&mut m, other.as_str());
            push_str(&mut m, ")");
            return Err(ApiError::NotFound(m));
        },
    }
    match &j.file_path {
        Some(p) => if file_exists {
            Ok(p.clone())
        } else {
            Err(ApiError::Gone(String::from_str("the archive is no longer available")))
        },
        None => Err(ApiError::Gone(String::from_str("the archive is no longer available"))),
    }
}

/// Only a done job of the requested kind whose archive is on disk is ever
/// served, and what is served is the path that job records.
pub proof fn lemma_download_serves_only_done(id: Seq<char>, kind: JobKind, job: Option<Job>, file_exists: bool)
    ensures
        download_outcome(id, kind, job, file_exists) matches DownloadOutcome::Serve(p) ==> {
            &&& job matches Some(j)
            &&& j.kind == kind
            &&& j.status == JobStatus::Done
            &&& file_exists
            &&& j.file_path matches Some(fp) && fp@ == p
        },
{
}

/// How every download request is answered: no job, or a job of the other
/// kind, under the id is not found; an expired job is gone; a queued,
/// running or failed job is not found, naming its status; a done job whose
/// recorded archive is on disk is served from exactly that path; and a done
/// job without its archive is gone.
pub proof fn lemma_download_decision(id: Seq<char>, kind: JobKind, job: Option<Job>, file_exists: bool)
    ensures
        ({
            let o = download_outcome(id, kind, job, file_exists);
            &&& (job is None || job->0.kind != kind) ==> o == DownloadOutcome::NotFound("unknown job: "@ + id)
            &&& (job is Some && job->0.kind == kind) ==> {
                let j = job->0;
                &&& j.status == JobStatus::Expired ==> o == DownloadOutcome::Gone("this download has expired"@)
                &&& j.status == JobStatus::Queued ==> o == DownloadOutcome::NotFound(
                    "job is not finished (status: queued)"@,
                )
                &&& j.status == JobStatus::Running ==> o == DownloadOutcome::NotFound(
                    "job is not finished (status: running)"@,
                )
                &&& j.status == JobStatus::Failed ==> o == DownloadOutcome::NotFound(
                    "job is not finished (status: failed)"@,
                )
                &&& (j.status == JobStatus::Done && j.file_path is Some && file_exists) ==> o
                    == DownloadOutcome::Serve(j.file_path->0@)
                &&& (j.status == JobStatus::Done && !(j.file_path is Some && file_exists)) ==> o
                    == DownloadOutcome::Gone("the archive is no longer available"@)
            }
        }),
{
    assert("job is not finished (status: "@ + "queued"@ + ")"@ =~= "job is not finished (status: queued)"@) by {
        reveal_strlit("job is not finished (status: ");
        reveal_strlit("queued");
        reveal_strlit(")");
        reveal_strlit("job is not finished (status: queued)");
    }
    assert("job is not finished (status: "@ + "running"@ + ")"@ =~= "job is not finished (status: running)"@) by {
        reveal_strlit("job is not finished (status: ");
        reveal_strlit("running");
        reveal_strlit(")");
        reveal_strlit("job is not finished (status: running)");
    }
    assert("job is not finished (status: "@ + "failed"@ + ")"@ =~= "job is not finished (status: failed)"@) by {
        reveal_strlit("job is not finished (status: ");
        reveal_strlit("failed");
        reveal_strlit(")");
        reveal_strlit("job is not finished (status: failed)");
    }
}

} // verus!
