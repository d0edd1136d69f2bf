//! Running one claimed job: where its files go and how the job row is
//! updated when it succeeds or fails. The server performs the file system
//! work (write the geojson, run the extract, rename the archive) in between.
use vstd::prelude::*;
use crate::config::{AppConfig, join_path, path_join};
use crate::extract::ExtractRequest;
use crate::jobs::{Job, JobKind, JobStatus, StatusDetail};
use crate::regions::opt_view;
use crate::text::concat;

verus! {

/// File system locations the runner works with.
#[derive(Debug, Clone)]
pub struct RunnerPaths {
    pub planet: String,
    pub work_dir: String,
    pub exports_dir: String,
    pub region_cache_dir: String,
}

/// Why running a job failed.
#[derive(Debug)]
pub enum RunnerError {
    Io(String),
    Extract(String),
    Store(String),
}

impl RunnerError {
    /// The human-readable message of the error.
    pub fn message(&self) -> (m: String)
        ensures
            m@ == match self {
                RunnerError::Io(e) => "io error: "@ + e@,
                RunnerError::Extract(e) => "extract failed: "@ + e@,
                RunnerError::Store(e) => "store error: "@ + e@,
            },
    {
        match self {
            RunnerError::Io(e) => concat("io error: ", e.as_str()),
            RunnerError::Extract(e) => concat("extract failed: ", e.as_str()),
            RunnerError::Store(e) => concat("store error: ", e.as_str()),
        }
    }
}

/// The error recorded when the region GeoJSON cannot be written.
pub fn geojson_write_error(cause: &str) -> (m: String)
    ensures
        m@ == "failed to write region geojson: "@ + cause@,
{
    concat("failed to write region geojson: ", cause)
}

/// The error recorded when the finished archive cannot be moved into place.
pub fn archive_move_error(cause: &str) -> (m: String)
    ensures
        m@ == "failed to move finished archive: "@ + cause@,
{
    concat("failed to move finished archive: ", cause)
}

/// The directory a finished archive of the given kind lives in.
pub open spec fn final_dir(paths: RunnerPaths, kind: JobKind) -> Seq<char> {
    match kind {
        JobKind::Custom => paths.exports_dir@,
        JobKind::Region => paths.region_cache_dir@,
    }
}

/// Microseconds in an hour.
pub const MICROS_PER_HOUR: i64 = 3_600_000_000;

impl RunnerPaths {
    /// The locations derived from the configuration.
    pub fn from_config(config: &AppConfig) -> (p: RunnerPaths)
        ensures
            p.planet@ == path_join(config.data_dir@, "planet.pmtiles"@),
            p.work_dir@ == path_join(config.data_dir@, "work"@),
            p.exports_dir@ == path_join(config.data_dir@, "exports"@),
            p.region_cache_dir@ == path_join(config.data_dir@, "region-cache"@),
    {
        RunnerPaths {
            planet: config.planet_path(),
            work_dir: config.work_dir(),
            exports_dir: config.exports_dir(),
            region_cache_dir: config.region_cache_dir(),
        }
    }

    /// `<work_dir>/<id>.geojson`: the region polygon handed to the extractor.
    pub fn geojson_path(&self, id: &str) -> (p: String)
        ensures
            p@ == path_join(self.work_dir@, id@ + ".geojson"@),
    {
        let name = concat(id, ".geojson");
        join_path(self.work_dir.as_str(), name.as_str())
    }

    /// `<work_dir>/<id>.pmtiles`: where the extractor writes the archive.
    pub fn work_output_path(&self, id: &str) -> (p: String)
        ensures
            p@ == path_join(self.work_dir@, id@ + ".pmtiles"@),
    {
        let name = concat(id, ".pmtiles");
        join_path(self.work_dir.as_str(), name.as_str())
    }

    /// `<exports_dir or region_cache_dir>/<id>.pmtiles`: where a finished
    /// archive is moved, so a download never sees a partial file.
    pub fn final_path(&self, kind: JobKind, id: &str) -> (p: String)
        ensures
            p@ == path_join(final_dir(*self, kind), id@ + ".pmtiles"@),
    {
        let name = concat(id, ".pmtiles");
        let dir = match kind {
            JobKind::Custom => &self.exports_dir,
            JobKind::Region => &self.region_cache_dir,
        };
        join_path(dir.as_str(), name.as_str())
    }

    /// The extract to run for a job.
    pub fn extract_request(&self, job: &Job) -> (r: ExtractRequest)
        ensures
            r.planet@ == self.planet@,
            r.region_geojson@ == path_join(self.work_dir@, job.id@ + ".geojson"@),
            r.maxzoom == job.maxzoom,
            r.output@ == path_join(self.work_dir@, job.id@ + ".pmtiles"@),
    {
        ExtractRequest {
            planet: self.planet.clone(),
            region_geojson: self.geojson_path(job.id.as_str()),
            maxzoom: job.maxzoom,
            output: self.work_output_path(job.id.as_str()),
        }
    }
}

/// When a job finished at `now` expires: never if pinned, otherwise after
/// the time-to-live of its kind.
pub open spec fn expiry_of(job: Job, now: i64, export_ttl: i64, region_ttl: i64) -> Option<i64> {
    if job.pinned {
        None
    } else {
        match job.kind {
            JobKind::Custom => Some((now + export_ttl) as i64),
            JobKind::Region => Some((now + region_ttl) as i64),
        }
    }
}

/// The expiry time is representable.
pub open spec fn expiry_fits(job: Job, now: i64, export_ttl: i64, region_ttl: i64) -> bool {
    let ttl = match job.kind {
        JobKind::Custom => export_ttl,
        JobKind::Region => region_ttl,
    };
    job.pinned || i64::MIN <= now + ttl <= i64::MAX
}

/// The status update for a job whose archive is in place at `final_path`:
/// the path and size of the file, finished now, and the expiry of its kind
/// (none when pinned). Time-to-lives are in microseconds.
pub fn completion_detail(
    job: &Job,
    final_path: String,
    file_size: u64,
    now: i64,
    export_ttl: i64,
    region_ttl: i64,
) -> (d: StatusDetail)
    requires
        expiry_fits(*job, now, export_ttl, region_ttl),
    ensures
        d.file_path == Some(final_path),
        d.file_size == Some(file_size),
        d.finished_at == Some(now),
        d.expires_at == expiry_of(*job, now, export_ttl, region_ttl),
        d.error is None,
        d.started_at is None,
{
    let expires_at = if job.pinned {
        None
    } else {
        let ttl = match job.kind {
            JobKind::Custom => export_ttl,
            JobKind::Region => region_ttl,
        };
        Some(now + ttl)
    };
    StatusDetail {
        error: None,
        file_path: Some(final_path),
        file_size: Some(file_size),
        started_at: None,
        finished_at: Some(now),
        expires_at,
    }
}

/// The status update for a job that failed with `error` at `now`.
pub fn failure_detail(error: String, now: i64) -> (d: StatusDetail)
    ensures
        d.error == Some(error),
        d.finished_at == Some(now),
        d.file_path is None,
        d.file_size is None,
        d.started_at is None,
        d.expires_at is None,
{
    StatusDetail {
        error: Some(error),
        file_path: None,
        file_size: None,
        started_at: None,
        finished_at: Some(now),
        expires_at: None,
    }
}

/// A pinned job never expires; any other job expires exactly one
/// time-to-live of its kind after it finished.
pub proof fn lemma_pinned_never_expires(job: Job, now: i64, export_ttl: i64, region_ttl: i64)
    ensures
        job.pinned ==> expiry_of(job, now, export_ttl, region_ttl) is None,
        !job.pinned && expiry_fits(job, now, export_ttl, region_ttl) ==> expiry_of(
            job,
            now,
            export_ttl,
            region_ttl,
        ) == Some((now + if job.kind == JobKind::Custom { export_ttl } else { region_ttl }) as i64),
{
}


/// A runner error with its message as text.
pub enum RunnerErrorView {
    Io(Seq<char>),
    Extract(Seq<char>),
    Store(Seq<char>),
}

impl View for RunnerError {
    type V = RunnerErrorView;

    open spec fn view(&self) -> RunnerErrorView {
        match self {
            RunnerError::Io(e) => RunnerErrorView::Io(e@),
            RunnerError::Extract(e) => RunnerErrorView::Extract(e@),
            RunnerError::Store(e) => RunnerErrorView::Store(e@),
        }
    }
}

/// A status update with its texts as sequences of characters.
pub struct StatusDetailView {
    pub error: Option<Seq<char>>,
    pub file_path: Option<Seq<char>>,
    pub file_size: Option<u64>,
    pub started_at: Option<i64>,
    pub finished_at: Option<i64>,
    pub expires_at: Option<i64>,
}

impl View for StatusDetail {
    type V = StatusDetailView;

    open spec fn view(&self) -> StatusDetailView {
        StatusDetailView {
            error: opt_view(self.error),
            file_path: opt_view(self.file_path),
            file_size: self.file_size,
            started_at: self.started_at,
            finished_at: self.finished_at,
            expires_at: self.expires_at,
        }
    }
}

/// Where running one claimed job stands.
#[derive(Debug)]
pub enum RunState {
    /// Nothing has been done yet.
    Start,
    /// The region GeoJSON is being written to the work directory.
    WritingGeojson,
    /// The extractor is running.
    Extracting,
    /// The finished archive, of the given size, is being moved into place.
    Moving { file_size: u64 },
    /// The job is being marked done.
    MarkingDone,
    /// The job is being marked failed; the run then ends with this error.
    MarkingFailed(RunnerError),
    /// The run is over.
    Finished,
}

/// What the server reports after performing a step's effects.
pub enum RunEvent {
    /// The run begins.
    Begin,
    /// Writing the GeoJSON file succeeded, or failed with this cause.
    GeojsonWritten(Result<(), String>),
    /// The extract produced an archive of this size, or failed with this
    /// message.
    ExtractFinished(Result<u64, String>),
    /// Moving the archive into place succeeded, or failed with this cause.
    ArchiveMoved(Result<(), String>),
    /// The status update was stored, or the store failed with this message.
    StatusStored(Result<(), String>),
}

/// What the server does for a step, in order. `RemoveFile` is done and its
/// outcome ignored; each of the others is awaited and its outcome reported
/// as the next event, except `Finish`, which ends the run with its result.
pub enum RunEffect {
    WriteFile { path: String, contents: String },
    RunExtract(ExtractRequest),
    RemoveFile(String),
    Rename { from: String, to: String },
    UpdateStatus { status: JobStatus, detail: StatusDetail },
    Finish(Result<(), RunnerError>),
}

/// `RunState` with its error as text.
pub enum RunStateView {
    Start,
    WritingGeojson,
    Extracting,
    Moving { file_size: u64 },
    MarkingDone,
    MarkingFailed(RunnerErrorView),
    Finished,
}

impl View for RunState {
    type V = RunStateView;

    open spec fn view(&self) -> RunStateView {
        match self {
            RunState::Start => RunStateView::Start,
            RunState::WritingGeojson => RunStateView::WritingGeojson,
            RunState::Extracting => RunStateView::Extracting,
            RunState::Moving { file_size } => RunStateView::Moving { file_size: *file_size },
            RunState::MarkingDone => RunStateView::MarkingDone,
            RunState::MarkingFailed(e) => RunStateView::MarkingFailed(e@),
            RunState::Finished => RunStateView::Finished,
        }
    }
}

/// `RunEvent` with its texts as sequences of characters.
pub enum RunEventView {
    Begin,
    GeojsonWritten(Result<(), Seq<char>>),
    ExtractFinished(Result<u64, Seq<char>>),
    ArchiveMoved(Result<(), Seq<char>>),
    StatusStored(Result<(), Seq<char>>),
}

/// The view of a result whose error is a string.
pub open spec fn result_view<T>(r: Result<T, String>) -> Result<T, Seq<char>> {
    match r {
        Ok(v) => Ok(v),
        Err(e) => Err(e@),
    }
}

impl View for RunEvent {
    type V = RunEventView;

    open spec fn view(&self) -> RunEventView {
        match self {
            RunEvent::Begin => RunEventView::Begin,
            RunEvent::GeojsonWritten(r) => RunEventView::GeojsonWritten(result_view(*r)),
            RunEvent::ExtractFinished(r) => RunEventView::ExtractFinished(result_view(*r)),
            RunEvent::ArchiveMoved(r) => RunEventView::ArchiveMoved(result_view(*r)),
            RunEvent::StatusStored(r) => RunEventView::StatusStored(result_view(*r)),
        }
    }
}

/// `RunEffect` with its texts as sequences of characters.
pub enum RunEffectView {
    WriteFile { path: Seq<char>, contents: Seq<char> },
    RunExtract { planet: Seq<char>, region_geojson: Seq<char>, maxzoom: u8, output: Seq<char> },
    RemoveFile(Seq<char>),
    Rename { from: Seq<char>, to: Seq<char> },
    UpdateStatus { status: JobStatus, detail: StatusDetailView },
    Finish(Result<(), RunnerErrorView>),
}

impl View for RunEffect {
    type V = RunEffectView;

    open spec fn view(&self) -> RunEffectView {
        match self {
            RunEffect::WriteFile { path, contents } => RunEffectView::WriteFile {
                path: path@,
                contents: contents@,
            },
            RunEffect::RunExtract(r) => RunEffectView::RunExtract {
                planet: r.planet@,
                region_geojson: r.region_geojson@,
                maxzoom: r.maxzoom,
                output: r.output@,
            },
            RunEffect::RemoveFile(p) => RunEffectView::RemoveFile(p@),
            RunEffect::Rename { from, to } => RunEffectView::Rename { from: from@, to: to@ },
            RunEffect::UpdateStatus { status, detail } => RunEffectView::UpdateStatus {
                status: *status,
                detail: detail@,
            },
            RunEffect::Finish(r) => RunEffectView::Finish(
                match r {
                    Ok(()) => Ok(()),
                    Err(e) => Err(e@),
                },
            ),
        }
    }
}

/// The status update marking a job failed with `error` at `now`.
pub open spec fn failed_update(error: Seq<char>, now: i64) -> RunEffectView {
    RunEffectView::UpdateStatus {
        status: JobStatus::Failed,
        detail: StatusDetailView {
            error: Some(error),
            file_path: None,
            file_size: None,
            started_at: None,
            finished_at: Some(now),
            expires_at: None,
        },
    }
}

/// One step of running `job`: from where the run stands and what the last
/// effects reported, the next state and the effects to perform.
///
/// The run writes the job's geometry to `<work_dir>/<id>.geojson`, runs the
/// extract into `<work_dir>/<id>.pmtiles`, removes the GeoJSON file, and
/// renames the archive into the exports or region-cache directory, so a
/// download never sees a partial file; then it marks the job done with the
/// archive's path and size and its expiry. A failure at any point removes
/// the work files that exist, marks the job failed with the error's message,
/// and ends the run with that error; a failure to store a status update ends
/// the run with a store error instead. Any other pairing of state and event
/// changes nothing.
pub open spec fn run_transition(
    job: Job,
    paths: RunnerPaths,
    export_ttl: i64,
    region_ttl: i64,
    state: RunStateView,
    event: RunEventView,
    now: i64,
) -> (RunStateView, Seq<RunEffectView>) {
    let geojson = path_join(paths.work_dir@, job.id@ + ".geojson"@);
    let work = path_join(paths.work_dir@, job.id@ + ".pmtiles"@);
    let target = path_join(final_dir(paths, job.kind), job.id@ + ".pmtiles"@);
    match (state, event) {
        (RunStateView::Start, RunEventView::Begin) => (
            RunStateView::WritingGeojson,
            seq![RunEffectView::WriteFile { path: geojson, contents: job.geometry@ }],
        ),
        (RunStateView::WritingGeojson, RunEventView::GeojsonWritten(Ok(()))) => (
            RunStateView::Extracting,
            seq![
                RunEffectView::RunExtract {
                    planet: paths.planet@,
                    region_geojson: geojson,
                    maxzoom: job.maxzoom,
                    output: work,
                },
            ],
        ),
        (RunStateView::WritingGeojson, RunEventView::GeojsonWritten(Err(cause))) => {
            let m = "failed to write region geojson: "@ + cause;
            (RunStateView::MarkingFailed(RunnerErrorView::Io(m)), seq![failed_update(m, now)])
        },
        (RunStateView::Extracting, RunEventView::ExtractFinished(Ok(size))) => (
            RunStateView::Moving { file_size: size },
            seq![RunEffectView::RemoveFile(geojson), RunEffectView::Rename { from: work, to: target }],
        ),
        (RunStateView::Extracting, RunEventView::ExtractFinished(Err(m))) => (
            RunStateView::MarkingFailed(RunnerErrorView::Extract(m)),
            seq![
                RunEffectView::RemoveFile(geojson),
                RunEffectView::RemoveFile(work),
                failed_update(m, now),
            ],
        ),
        (RunStateView::Moving { file_size }, RunEventView::ArchiveMoved(Ok(()))) => (
            RunStateView::MarkingDone,
            seq![
                RunEffectView::UpdateStatus {
                    status: JobStatus::Done,
                    detail: StatusDetailView {
                        error: None,
                        file_path: Some(target),
                        file_size: Some(file_size),
                        started_at: None,
                        finished_at: Some(now),
                        expires_at: expiry_of(job, now, export_ttl, region_ttl),
                    },
                },
            ],
        ),
        (RunStateView::Moving { .. }, RunEventView::ArchiveMoved(Err(cause))) => {
            let m = "failed to move finished archive: "@ + cause;
            (
                RunStateView::MarkingFailed(RunnerErrorView::Io(m)),
                seq![RunEffectView::RemoveFile(work), failed_update(m, now)],
            )
        },
        (RunStateView::MarkingDone, RunEventView::StatusStored(Ok(()))) => (
            RunStateView::Finished,
            seq![RunEffectView::Finish(Ok(()))],
        ),
        (RunStateView::MarkingFailed(e), RunEventView::StatusStored(Ok(()))) => (
            RunStateView::Finished,
            seq![RunEffectView::Finish(Err(e))],
        ),
        (RunStateView::MarkingDone, RunEventView::StatusStored(Err(m))) => (
            RunStateView::Finished,
            seq![RunEffectView::Finish(Err(RunnerErrorView::Store(m)))],
        ),
        (RunStateView::MarkingFailed(_), RunEventView::StatusStored(Err(m))) => (
            RunStateView::Finished,
            seq![RunEffectView::Finish(Err(RunnerErrorView::Store(m)))],
        ),
        (s, _) => (s, Seq::<RunEffectView>::empty()),
    }
}

/// A step that completes the run needs a representable expiry time.
pub open spec fn run_step_fits(
    job: Job,
    export_ttl: i64,
    region_ttl: i64,
    state: RunStateView,
    event: RunEventView,
    now: i64,
) -> bool {
    (state is Moving && event matches RunEventView::ArchiveMoved(Ok(()))) ==> expiry_fits(
        job,
        now,
        export_ttl,
        region_ttl,
    )
}

/// Whether the expiry of `job` finished at `now` is representable (see
/// `expiry_fits`).
pub fn expiry_in_range(job: &Job, now: i64, export_ttl: i64, region_ttl: i64) -> (b: bool)
    ensures
        b == expiry_fits(*job, now, export_ttl, region_ttl),
{
    if job.pinned {
        return true;
    }
    let ttl = match job.kind {
        JobKind::Custom => export_ttl,
        JobKind::Region => region_ttl,
    };
    now.checked_add(ttl).is_some()
}

fn failed_effect(error: String, now: i64) -> (e: RunEffect)
    ensures
        e@ == failed_update(error@, now),
{
    RunEffect::UpdateStatus { status: JobStatus::Failed, detail: failure_detail(error, now) }
}

/// Takes one step of running `job` (see `run_transition`); `now` is the
/// current time, used when a status update is made.
pub fn run_step(
    job: &Job,
    paths: &RunnerPaths,
    export_ttl: i64,
    region_ttl: i64,
    state: RunState,
    event: RunEvent,
    now: i64,
) -> (r: (RunState, Vec<RunEffect>))
    requires
        run_step_fits(*job, export_ttl, region_ttl, state@, event@, now),
    ensures
        (r.0@, r.1@.map_values(|e: RunEffect| e@)) == run_transition(
            *job,
            *paths,
            export_ttl,
            region_ttl,
            state@,
            event@,
            now,
        ),
{
    let ghost sv = state@;
    let ghost ev = event@;
    let ghost expected = run_transition(*job, *paths, export_ttl, region_ttl, sv, ev, now);
    let mut effects: Vec<RunEffect> = Vec::new();
    let next = match (state, event) {
        (RunState::Start, RunEvent::Begin) => {
            effects.push(RunEffect::WriteFile {
                path: paths.geojson_path(job.id.as_str()),
                contents: job.geometry.clone(),
            });
            RunState::WritingGeojson
        },
        (RunState::WritingGeojson, RunEvent::GeojsonWritten(Ok(()))) => {
            effects.push(RunEffect::RunExtract(paths.extract_request(job)));
            RunState::Extracting
        },
        (RunState::WritingGeojson, RunEvent::GeojsonWritten(Err(cause))) => {
            let m = geojson_write_error(cause.as_str());
            effects.push(failed_effect(m.clone(), now));
            RunState::MarkingFailed(RunnerError::Io(m))
        },
        (RunState::Extracting, RunEvent::ExtractFinished(Ok(size))) => {
            effects.push(RunEffect::RemoveFile(paths.geojson_path(job.id.as_str())));
            effects.push(RunEffect::Rename {
                from: paths.work_output_path(job.id.as_str()),
                to: paths.final_path(job.kind, job.id.as_str()),
            });
            RunState::Moving { file_size: size }
        },
        (RunState::Extracting, RunEvent::ExtractFinished(Err(m))) => {
            effects.push(RunEffect::RemoveFile(paths.geojson_path(job.id.as_str())));
            effects.push(RunEffect::RemoveFile(paths.work_output_path(job.id.as_str())));
            effects.push(failed_effect(m.clone(), now));
            RunState::MarkingFailed(RunnerError::Extract(m))
        },
        (RunState::Moving { file_size }, RunEvent::ArchiveMoved(Ok(()))) => {
            let target = paths.final_path(job.kind, job.id.as_str());
            let detail = completion_detail(job, target, file_size, now, export_ttl, region_ttl);
            effects.push(RunEffect::UpdateStatus { status: JobStatus::Done, detail });
            RunState::MarkingDone
        },
        (RunState::Moving { .. }, RunEvent::ArchiveMoved(Err(cause))) => {
            let m = archive_move_error(cause.as_str());
            effects.push(RunEffect::RemoveFile(paths.work_output_path(job.id.as_str())));
            effects.push(failed_effect(m.clone(), now));
            RunState::MarkingFailed(RunnerError::Io(m))
        },
        (RunState::MarkingDone, RunEvent::StatusStored(Ok(()))) => {
            effects.push(RunEffect::Finish(Ok(())));
            RunState::Finished
        },
        (RunState::MarkingFailed(e), RunEvent::StatusStored(Ok(()))) => {
            effects.push(RunEffect::Finish(Err(e)));
            RunState::Finished
        },
        (RunState::MarkingDone, RunEvent::StatusStored(Err(m))) => {
            effects.push(RunEffect::Finish(Err(RunnerError::Store(m))));
            RunState::Finished
        },
        (RunState::MarkingFailed(_), RunEvent::StatusStored(Err(m))) => {
            effects.push(RunEffect::Finish(Err(RunnerError::Store(m))));
            RunState::Finished
        },
        (s, _) => s,
    };
    proof {
        assert(effects@.map_values(|e: RunEffect| e@) =~= expected.1);
    }
    (next, effects)
}

/// The order of a run: the archive is renamed into place only after the
/// extract succeeded; the job is marked done only once its archive was moved;
/// the run ends successfully only after marking it done was stored; and a
/// failed write, extract or move always marks the job failed with the same
/// message the run then ends with, unless storing that fails.
pub proof fn lemma_run_order(
    job: Job,
    paths: RunnerPaths,
    export_ttl: i64,
    region_ttl: i64,
    state: RunStateView,
    event: RunEventView,
    now: i64,
)
    ensures
        ({
            let (next, effects) = run_transition(job, paths, export_ttl, region_ttl, state, event, now);
            &&& forall|k: int| 0 <= k < effects.len() && #[trigger] effects[k] is Rename ==> (
                state is Extracting && event matches RunEventView::ExtractFinished(Ok(_)))
            &&& forall|k: int|
                0 <= k < effects.len() && (#[trigger] effects[k] matches RunEffectView::UpdateStatus {
                    status: JobStatus::Done,
                    ..
                }) ==> (state is Moving && event matches RunEventView::ArchiveMoved(Ok(())))
            &&& forall|k: int|
                0 <= k < effects.len() && #[trigger] effects[k] == RunEffectView::Finish(Ok(()))
                ==> (state is MarkingDone && event matches RunEventView::StatusStored(Ok(_)))
            &&& (state is WritingGeojson && event matches RunEventView::GeojsonWritten(Err(_))
                || state is Extracting && event matches RunEventView::ExtractFinished(Err(_))
                || state is Moving && event matches RunEventView::ArchiveMoved(Err(_))) ==> (
                next matches RunStateView::MarkingFailed(e) && effects.len() > 0
                && effects.last() == failed_update(
                    match e {
                        RunnerErrorView::Io(m) => m,
                        RunnerErrorView::Extract(m) => m,
                        RunnerErrorView::Store(m) => m,
                    },
                    now,
                ))
            &&& (state is MarkingFailed && event == RunEventView::StatusStored(Ok(()))) ==> (
                state matches RunStateView::MarkingFailed(e) && effects == seq![RunEffectView::Finish(Err(e))])
        }),
{
}

/// A successful run, step by step: the geometry is written to
/// `<work_dir>/<id>.geojson`; the extract reads exactly that file and writes
/// `<work_dir>/<id>.pmtiles`; then the GeoJSON file is removed and that
/// archive is renamed to `<dir>/<id>.pmtiles`, where `dir` is the exports
/// directory for a custom export and the region cache for a region; the job
/// is marked done with that final path, the size the extract reported, the
/// finishing time, and an expiry one time-to-live of its kind later (none
/// when pinned); and once that is stored the run ends successfully.
pub proof fn lemma_run_success_path(
    job: Job,
    paths: RunnerPaths,
    export_ttl: i64,
    region_ttl: i64,
    now: i64,
    size: u64,
)
    ensures
        ({
            let geojson = path_join(paths.work_dir@, job.id@ + ".geojson"@);
            let work = path_join(paths.work_dir@, job.id@ + ".pmtiles"@);
            let dir = match job.kind {
                JobKind::Custom => paths.exports_dir@,
                JobKind::Region => paths.region_cache_dir@,
            };
            let target = path_join(dir, job.id@ + ".pmtiles"@);
            let ttl = match job.kind {
                JobKind::Custom => export_ttl,
                JobKind::Region => region_ttl,
            };
            let t1 = run_transition(job, paths, export_ttl, region_ttl, RunStateView::Start, RunEventView::Begin, now);
            let t2 = run_transition(job, paths, export_ttl, region_ttl, t1.0, RunEventView::GeojsonWritten(Ok(())), now);
            let t3 = run_transition(job, paths, export_ttl, region_ttl, t2.0, RunEventView::ExtractFinished(Ok(size)), now);
            let t4 = run_transition(job, paths, export_ttl, region_ttl, t3.0, RunEventView::ArchiveMoved(Ok(())), now);
            let t5 = run_transition(job, paths, export_ttl, region_ttl, t4.0, RunEventView::StatusStored(Ok(())), now);
            &&& t1.1 == seq![RunEffectView::WriteFile { path: geojson, contents: job.geometry@ }]
            &&& t2.1 == seq![
                RunEffectView::RunExtract {
                    planet: paths.planet@,
                    region_geojson: geojson,
                    maxzoom: job.maxzoom,
                    output: work,
                },
            ]
            &&& t3.1 == seq![RunEffectView::RemoveFile(geojson), RunEffectView::Rename { from: work, to: target }]
            &&& t4.1.len() == 1
            &&& t4.1[0] matches RunEffectView::UpdateStatus { status, detail }
            &&& status == JobStatus::Done
            &&& detail.file_path == Some(target)
            &&& detail.file_size == Some(size)
            &&& detail.finished_at == Some(now)
            &&& detail.error is None
            &&& detail.started_at is None
            &&& (job.pinned ==> detail.expires_at is None)
            &&& (!job.pinned && i64::MIN <= now + ttl <= i64::MAX ==> detail.expires_at == Some(
                (now + ttl) as i64,
            ))
            &&& t5.1 == seq![RunEffectView::Finish(Ok(()))]
            &&& t5.0 == RunStateView::Finished
        }),
{
}

/// A failed step cleans up every work file that may exist at that point and
/// marks the job failed with the error's message at the current time: a
/// failed GeoJSON write leaves no file to remove; a failed extract removes
/// both the GeoJSON file and the partial archive; a failed move removes the
/// archive left in the work directory. The run ends with that error once
/// the update is stored, and with a store error when storing fails.
pub proof fn lemma_run_failure_cleanup(
    job: Job,
    paths: RunnerPaths,
    export_ttl: i64,
    region_ttl: i64,
    now: i64,
    cause: Seq<char>,
    store_error: Seq<char>,
    size: u64,
)
    ensures
        ({
            let geojson = path_join(paths.work_dir@, job.id@ + ".geojson"@);
            let work = path_join(paths.work_dir@, job.id@ + ".pmtiles"@);
            let failed = |m: Seq<char>|
                RunEffectView::UpdateStatus {
                    status: JobStatus::Failed,
                    detail: StatusDetailView {
                        error: Some(m),
                        file_path: None,
                        file_size: None,
                        started_at: None,
                        finished_at: Some(now),
                        expires_at: None,
                    },
                };
            let w = run_transition(job, paths, export_ttl, region_ttl, RunStateView::WritingGeojson, RunEventView::GeojsonWritten(Err(cause)), now);
            let x = run_transition(job, paths, export_ttl, region_ttl, RunStateView::Extracting, RunEventView::ExtractFinished(Err(cause)), now);
            let m = run_transition(job, paths, export_ttl, region_ttl, RunStateView::Moving { file_size: size }, RunEventView::ArchiveMoved(Err(cause)), now);
            let wm = "failed to write region geojson: "@ + cause;
            let mm = "failed to move finished archive: "@ + cause;
            &&& w.1 == seq![failed(wm)]
            &&& w.0 == RunStateView::MarkingFailed(RunnerErrorView::Io(wm))
            &&& x.1 == seq![RunEffectView::RemoveFile(geojson), RunEffectView::RemoveFile(work), failed(cause)]
            &&& x.0 == RunStateView::MarkingFailed(RunnerErrorView::Extract(cause))
            &&& m.1 == seq![RunEffectView::RemoveFile(work), failed(mm)]
            &&& m.0 == RunStateView::MarkingFailed(RunnerErrorView::Io(mm))
            &&& run_transition(job, paths, export_ttl, region_ttl, x.0, RunEventView::StatusStored(Ok(())), now).1
                == seq![RunEffectView::Finish(Err(RunnerErrorView::Extract(cause)))]
            &&& run_transition(job, paths, export_ttl, region_ttl, x.0, RunEventView::StatusStored(Err(store_error)), now).1
                == seq![RunEffectView::Finish(Err(RunnerErrorView::Store(store_error)))]
            &&& run_transition(job, paths, export_ttl, region_ttl, RunStateView::MarkingDone, RunEventView::StatusStored(Err(store_error)), now).1
                == seq![RunEffectView::Finish(Err(RunnerErrorView::Store(store_error)))]
        }),
{
}

} // verus!
