//! What a region extract request does.
use vstd::prelude::*;
use crate::error::ApiError;
use crate::jobs::{Job, JobKind, JobStatus, status_is_active};
use crate::jobs::engine::provides_output;
use crate::text::concat;

verus! {

/// How a region extract request proceeds.
#[derive(Debug, Clone, Copy, PartialEq, Eq, Structural)]
pub enum RegionExtractStart {
    /// The stored region job is in flight or done with its archive on disk:
    /// report it as it is (200).
    UseExisting,
    /// Enqueue a fresh region job (202), first deleting the stale region row
    /// when `replace` is set.
    Enqueue { replace: bool },
}

/// The stored job under the region id, counted only when it is a region job.
pub open spec fn region_job(existing: Option<Job>) -> Option<Job> {
    match existing {
        Some(j) => if j.kind == JobKind::Region { Some(j) } else { None },
        None => None,
    }
}

/// The outcome of a region extract request, with error texts as sequences.
pub enum RegionExtractOutcome {
    NotFound(Seq<char>),
    QueueFull(Seq<char>),
    Start(RegionExtractStart),
}

/// The decision for an extract request of region `id`: unknown regions are
/// not found; an existing region job that provides its output is reused;
/// otherwise a full queue refuses the request, and else a job is enqueued,
/// replacing the stale region row if there is one.
pub open spec fn region_extract_outcome(
    id: Seq<char>,
    known: bool,
    existing: Option<Job>,
    file_exists: bool,
    queued: u32,
    queue_depth_max: u32,
) -> RegionExtractOutcome {
    if !known {
        RegionExtractOutcome::NotFound("unknown region: "@ + id)
    } else {
        match region_job(existing) {
            Some(j) if provides_output(j, file_exists) => RegionExtractOutcome::Start(
                RegionExtractStart::UseExisting,
            ),
            e => if queued >= queue_depth_max {
                RegionExtractOutcome::QueueFull("export queue is full, try again later"@)
            } else {
                RegionExtractOutcome::Start(RegionExtractStart::Enqueue { replace: e is Some })
            },
        }
    }
}

/// A region extract result read against `region_extract_outcome`.
pub open spec fn region_extract_matches(r: Result<RegionExtractStart, ApiError>, o: RegionExtractOutcome) -> bool {
    match o {
        RegionExtractOutcome::NotFound(m) => r matches Err(ApiError::NotFound(e)) && e@ == m,
        RegionExtractOutcome::QueueFull(m) => r matches Err(ApiError::Busy(e)) && e@ == m,
        RegionExtractOutcome::Start(s) => r == Ok::<RegionExtractStart, ApiError>(s),
    }
}

/// Decides a region extract request (see `region_extract_outcome`).
/// `existing` is the job stored under the region id and `file_exists` says
/// whether the file it records is on disk; `queued` is the queue depth.
pub fn plan_region_extract(
    id: &str,
    known: bool,
    existing: &Option<Job>,
    file_exists: bool,
    queued: u32,
    queue_depth_max: u32,
) -> (r: Result<RegionExtractStart, ApiError>)
    ensures
        region_extract_matches(
            r,
            region_extract_outcome(id@, known, *existing, file_exists, queued, queue_depth_max),
        ),
{
    if !known {
        return Err(ApiError::NotFound(concat("unknown region: ", id)));
    }
    let region_existing = match existing {
        Some(j) => j.kind == JobKind::Region,
        None => false,
    };
    if region_existing {
        match existing {
            Some(j) => {
                if j.provides_output(file_exists) {
                    return Ok(RegionExtractStart::UseExisting);
                }
            },
            None => {},
        }
    }
    if queued >= queue_depth_max {
        return Err(ApiError::Busy(String::from_str("export queue is full, try again later")));
    }
    Ok(RegionExtractStart::Enqueue { replace: region_existing })
}

/// Whether deciding a region extract request needs the queue depth: only a
/// known region whose stored region job does not already provide its output
/// can be refused for a full queue.
pub open spec fn region_extract_needs_queue_depth(known: bool, existing: Option<Job>, file_exists: bool) -> bool {
    known && !(region_job(existing) matches Some(j) && provides_output(j, file_exists))
}

/// Whether the queue depth must be read before deciding a region extract
/// request (see `region_extract_needs_queue_depth`); when it need not, any
/// depth gives the same decision.
pub fn needs_queue_depth(known: bool, existing: &Option<Job>, file_exists: bool) -> (b: bool)
    ensures
        b == region_extract_needs_queue_depth(known, *existing, file_exists),
{
    if !known {
        return false;
    }
    match existing {
        Some(j) => !(j.kind == JobKind::Region && j.provides_output(file_exists)),
        None => true,
    }
}

/// When the queue depth is not needed, the decision is the same whatever
/// depth and limit are given.
pub proof fn lemma_queue_depth_irrelevant(
    id: Seq<char>,
    known: bool,
    existing: Option<Job>,
    file_exists: bool,
    q1: u32,
    m1: u32,
    q2: u32,
    m2: u32,
)
    requires
        !region_extract_needs_queue_depth(known, existing, file_exists),
    ensures
        region_extract_outcome(id, known, existing, file_exists, q1, m1) == region_extract_outcome(
            id,
            known,
            existing,
            file_exists,
            q2,
            m2,
        ),
{
}

/// A region request never enqueues a second job while its region job is
/// queued or running, and never enqueues anything when the queue is full.
pub proof fn lemma_region_extract_no_duplicates(
    id: Seq<char>,
    existing: Option<Job>,
    file_exists: bool,
    queued: u32,
    queue_depth_max: u32,
)
    ensures
        (region_job(existing) matches Some(j) && status_is_active(j.status)) ==> region_extract_outcome(
            id,
            true,
            existing,
            file_exists,
            queued,
            queue_depth_max,
        ) == RegionExtractOutcome::Start(RegionExtractStart::UseExisting),
        queued >= queue_depth_max ==> !(region_extract_outcome(
            id,
            true,
            existing,
            file_exists,
            queued,
            queue_depth_max,
        ) matches RegionExtractOutcome::Start(RegionExtractStart::Enqueue { .. })),
{
}

/// What a region extract request is answered with, for every input: an
/// unknown region is not found; a stored region job that is queued or
/// running, or done with its archive on disk, is reused whatever the queue
/// depth; otherwise a full queue refuses the request; and otherwise a fresh
/// job is enqueued, replacing the stored row exactly when a region job is
/// stored under the id, whatever its status or file (a failed, expired or
/// lost one must go, or the new job could not take its id). A job of
/// another kind under the id is neither reused nor replaced.
pub proof fn lemma_region_extract_decision(
    id: Seq<char>,
    known: bool,
    existing: Option<Job>,
    file_exists: bool,
    queued: u32,
    queue_depth_max: u32,
)
    ensures
        ({
            let o = region_extract_outcome(id, known, existing, file_exists, queued, queue_depth_max);
            let stored = existing is Some && existing->0.kind == JobKind::Region;
            let reusable = stored && ({
                let j = existing->0;
                ||| j.status == JobStatus::Queued
                ||| j.status == JobStatus::Running
                ||| (j.status == JobStatus::Done && j.file_path is Some && file_exists)
            });
            &&& !known ==> o == RegionExtractOutcome::NotFound("unknown region: "@ + id)
            &&& (known && reusable) ==> o == RegionExtractOutcome::Start(RegionExtractStart::UseExisting)
            &&& (known && !reusable && queued >= queue_depth_max) ==> o == RegionExtractOutcome::QueueFull(
                "export queue is full, try again later"@,
            )
            &&& (known && !reusable && queued < queue_depth_max) ==> o == RegionExtractOutcome::Start(
                RegionExtractStart::Enqueue { replace: stored },
            )
        }),
{
}

} // verus!
