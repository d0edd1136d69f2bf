//! Decisions of the job engine around the queue: whether an existing job
//! already provides a region's extract, what seeding a region does, and what
//! a worker does next.
use vstd::prelude::*;
use crate::jobs::{Job, JobStatus, status_is_active};
use crate::jobs::store::StoreError;

verus! {

/// A job already provides its output: it is queued or running, or it is done
/// and its archive is still on disk (`file_exists` says whether the file the
/// job records exists).
pub open spec fn provides_output(job: Job, file_exists: bool) -> bool {
    status_is_active(job.status) || (job.status == JobStatus::Done && job.file_path is Some
        && file_exists)
}

impl Job {
    /// Whether this job already provides its output (see `provides_output`).
    pub fn provides_output(&self, file_exists: bool) -> (b: bool)
        ensures
            b == provides_output(*self, file_exists),
    {
        match self.status {
            JobStatus::Queued | JobStatus::Running => true,
            JobStatus::Done => self.file_path.is_some() && file_exists,
            _ => false,
        }
    }
}

/// What seeding one configured region does.
#[derive(Debug, Clone, Copy, PartialEq, Eq, Structural)]
pub enum SeedAction {
    /// The region is not in the catalogue: skip it.
    UnknownRegion,
    /// A job for it is in flight or its archive is on disk: leave it.
    AlreadyPresent,
    /// Drop any stale row and enqueue a fresh pinned region job.
    Enqueue,
}

/// The seeding decision for a region: `known` says whether the catalogue
/// has it, `existing` is the job stored under its id.
pub open spec fn seed_action(known: bool, existing: Option<Job>, file_exists: bool) -> SeedAction {
    if !known {
        SeedAction::UnknownRegion
    } else {
        match existing {
            Some(job) => if provides_output(job, file_exists) {
                SeedAction::AlreadyPresent
            } else {
                SeedAction::Enqueue
            },
            None => SeedAction::Enqueue,
        }
    }
}

/// Decides what seeding one region does.
pub fn plan_seed(known: bool, existing: &Option<Job>, file_exists: bool) -> (a: SeedAction)
    ensures
        a == seed_action(known, *existing, file_exists),
{
    if !known {
        return SeedAction::UnknownRegion;
    }
    match existing {
        Some(job) => if job.provides_output(file_exists) {
            SeedAction::AlreadyPresent
        } else {
            SeedAction::Enqueue
        },
        None => SeedAction::Enqueue,
    }
}

/// Seeding a region whose job is queued or running never enqueues another
/// one, so seeding twice does not duplicate work.
pub proof fn lemma_seed_skips_active(existing: Job, file_exists: bool)
    requires
        status_is_active(existing.status),
    ensures
        seed_action(true, Some(existing), file_exists) == SeedAction::AlreadyPresent,
{
}

/// Seconds an idle worker waits for a wake-up before polling the queue again.
pub const IDLE_POLL_SECS: u64 = 30;

/// Seconds a worker waits after the store failed to hand out a job.
pub const ERROR_BACKOFF_SECS: u64 = 5;

/// What a worker does after asking the store for the oldest queued job.
#[derive(Debug)]
pub enum WorkerAction {
    /// Run the claimed job, then ask again.
    Run(Job),
    /// The queue is empty: wait for a wake-up or `secs` seconds, then ask again.
    Idle { secs: u64 },
    /// Claiming failed with `error`: wait `secs` seconds, then ask again.
    Backoff { error: StoreError, secs: u64 },
}

/// The worker's next action for the outcome of claiming a job.
pub fn worker_action(claimed: Result<Option<Job>, StoreError>) -> (a: WorkerAction)
    ensures
        match claimed {
            Ok(Some(job)) => a == WorkerAction::Run(job),
            Ok(None) => a == WorkerAction::Idle { secs: IDLE_POLL_SECS },
            Err(e) => a == WorkerAction::Backoff { error: e, secs: ERROR_BACKOFF_SECS },
        },
{
    match claimed {
        Ok(Some(job)) => WorkerAction::Run(job),
        Ok(None) => WorkerAction::Idle { secs: IDLE_POLL_SECS },
        Err(e) => WorkerAction::Backoff { error: e, secs: ERROR_BACKOFF_SECS },
    }
}

/// What seeding decides for every region: a region missing from the
/// catalogue is skipped; a known region with no stored job is enqueued; a
/// stored job that is queued or running, or done with its archive on disk,
/// is left alone; any other stored job (failed, expired, or done without its
/// archive) is replaced by a fresh one.
pub proof fn lemma_seed_decision(known: bool, existing: Option<Job>, file_exists: bool)
    ensures
        !known ==> seed_action(known, existing, file_exists) == SeedAction::UnknownRegion,
        (known && existing is None) ==> seed_action(known, existing, file_exists) == SeedAction::Enqueue,
        (known && existing is Some) ==> {
            let j = existing->0;
            let present = j.status == JobStatus::Queued || j.status == JobStatus::Running || (j.status
                == JobStatus::Done && j.file_path is Some && file_exists);
            &&& present ==> seed_action(known, existing, file_exists) == SeedAction::AlreadyPresent
            &&& !present ==> seed_action(known, existing, file_exists) == SeedAction::Enqueue
        },
{
}

} // verus!
