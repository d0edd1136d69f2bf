use pmtile_tool::jobs::cleanup::{
    find_orphans, is_archive_file_name, plan_evictions, reconcile_done, DirFile, DoneFile,
    SweepReport, GIB,
};
use pmtile_tool::jobs::engine::{
    plan_seed, worker_action, SeedAction, WorkerAction, ERROR_BACKOFF_SECS, IDLE_POLL_SECS,
};
use pmtile_tool::jobs::runner::{
    archive_move_error, completion_detail, expiry_in_range, failure_detail, geojson_write_error,
    run_step, RunEffect, RunEvent, RunState, RunnerError, RunnerPaths, MICROS_PER_HOUR,
};
use pmtile_tool::jobs::store::StoreError;
use pmtile_tool::jobs::{Job, JobKind, JobStatus, StatusDetail};

fn paths() -> RunnerPaths {
    RunnerPaths {
        planet: "/d/planet.pmtiles".to_string(),
        work_dir: "/d/work".to_string(),
        exports_dir: "/d/exports".to_string(),
        region_cache_dir: "/d/region-cache/".to_string(),
    }
}

#[test]
fn kind_and_status_names_round_trip() {
    for k in [JobKind::Custom, JobKind::Region] {
        assert_eq!(JobKind::from_stored(k.as_str()).ok(), Some(k));
    }
    for s in [
        JobStatus::Queued,
        JobStatus::Running,
        JobStatus::Done,
        JobStatus::Failed,
        JobStatus::Expired,
    ] {
        assert_eq!(JobStatus::from_stored(s.as_str()).ok(), Some(s));
    }
    assert_eq!(JobKind::Custom.as_str(), "custom");
    assert_eq!(JobStatus::Expired.as_str(), "expired");
}

#[test]
fn unknown_stored_names_are_database_errors() {
    match JobKind::from_stored("planet") {
        Err(e) => assert_eq!(e.message(), "database error: unknown job kind: planet"),
        Ok(_) => panic!("accepted an unknown kind"),
    }
    match JobStatus::from_stored("Done") {
        Err(StoreError::Db(m)) => assert_eq!(m, "unknown job status: Done"),
        _ => panic!("accepted an unknown status"),
    }
    assert_eq!(
        StoreError::NotFound("x".into()).message(),
        "job not found: x"
    );
}

#[test]
fn new_jobs_are_queued() {
    let job = Job::new_custom("{}".into(), 10, 1000, "1.2.3.4".into());
    assert_eq!(job.kind, JobKind::Custom);
    assert_eq!(job.status, JobStatus::Queued);
    assert_eq!(job.client_ip.as_deref(), Some("1.2.3.4"));
    assert_eq!(job.maxzoom, 10);
    assert_eq!(job.estimated_tiles, 1000);
    assert!(!job.pinned);
    assert!(job.is_active());
    assert_eq!(job.id.len(), 36);
    assert_eq!(&job.id[14..15], "4");
    let other = Job::new_custom("{}".into(), 10, 1000, "1.2.3.4".into());
    assert_ne!(job.id, other.id);

    let region = Job::new_region("europe".into(), "{}".into(), 15, true);
    assert_eq!(region.id, "europe");
    assert_eq!(region.region_id.as_deref(), Some("europe"));
    assert_eq!(region.kind, JobKind::Region);
    assert!(region.pinned);
    assert_eq!(region.estimated_tiles, 0);
    assert!(region.client_ip.is_none());
}

#[test]
fn runner_paths_follow_job_kind() {
    let p = paths();
    assert_eq!(p.geojson_path("abc"), "/d/work/abc.geojson");
    assert_eq!(p.work_output_path("abc"), "/d/work/abc.pmtiles");
    assert_eq!(p.final_path(JobKind::Custom, "abc"), "/d/exports/abc.pmtiles");
    assert_eq!(
        p.final_path(JobKind::Region, "england"),
        "/d/region-cache/england.pmtiles"
    );
    let job = Job::new_region("england".into(), "{}".into(), 12, false);
    let req = p.extract_request(&job);
    assert_eq!(req.planet, "/d/planet.pmtiles");
    assert_eq!(req.region_geojson, "/d/work/england.geojson");
    assert_eq!(req.output, "/d/work/england.pmtiles");
    assert_eq!(req.maxzoom, 12);
}

#[test]
fn pinned_completion_has_no_expiry() {
    let hour: i64 = 3_600_000_000;
    let pinned = Job::new_region("europe".into(), "{}".into(), 15, true);
    let d = completion_detail(&pinned, "/x/europe.pmtiles".into(), 7, 1_000, 48 * hour, 24 * hour);
    assert_eq!(d.expires_at, None);
    assert_eq!(d.file_path.as_deref(), Some("/x/europe.pmtiles"));
    assert_eq!(d.file_size, Some(7));
    assert_eq!(d.finished_at, Some(1_000));

    let region = Job::new_region("wales".into(), "{}".into(), 15, false);
    let d = completion_detail(&region, "/x/wales.pmtiles".into(), 7, 1_000, 48 * hour, 24 * hour);
    assert_eq!(d.expires_at, Some(1_000 + 24 * hour));

    let custom = Job::new_custom("{}".into(), 10, 5, "ip".into());
    let d = completion_detail(&custom, "/x/c.pmtiles".into(), 13, 5, 48 * hour, 24 * hour);
    assert_eq!(d.expires_at, Some(5 + 48 * hour));
    assert!(d.error.is_none());
}

#[test]
fn failure_detail_records_error() {
    let d = failure_detail("boom".into(), 9);
    assert_eq!(d.error.as_deref(), Some("boom"));
    assert_eq!(d.finished_at, Some(9));
    assert_eq!(d.file_path, None);
    assert_eq!(StatusDetail::default(), StatusDetail {
        error: None,
        file_path: None,
        file_size: None,
        started_at: None,
        finished_at: None,
        expires_at: None,
    });
    assert_eq!(RunnerError::Extract("boom".into()).message(), "extract failed: boom");
    assert_eq!(RunnerError::Io("x".into()).message(), "io error: x");
    assert_eq!(RunnerError::Store("y".into()).message(), "store error: y");
    assert_eq!(geojson_write_error("denied"), "failed to write region geojson: denied");
    assert_eq!(archive_move_error("gone"), "failed to move finished archive: gone");
}

#[test]
fn eviction_stops_once_within_budget() {
    let (plan, left) = plan_evictions(300, 100, &vec![Some(50), None, Some(100), Some(100), Some(10)]);
    assert_eq!(plan, vec![0, 2, 3]);
    assert_eq!(left, 50);
}

#[test]
fn eviction_within_budget_evicts_nothing() {
    let (plan, left) = plan_evictions(100, 100, &vec![Some(50), Some(10)]);
    assert!(plan.is_empty());
    assert_eq!(left, 100);
}

#[test]
fn eviction_with_zero_budget_evicts_every_file() {
    let (plan, left) = plan_evictions(30, 0, &vec![Some(10), None, Some(10), Some(5)]);
    assert_eq!(plan, vec![0, 2, 3]);
    assert_eq!(left, 5);
    let (plan, left) = plan_evictions(10, 0, &vec![Some(25)]);
    assert_eq!(plan, vec![0]);
    assert_eq!(left, 0);
    assert_eq!(GIB, 1_073_741_824);
}

#[test]
fn reconcile_marks_lost_and_keeps_known() {
    let done = vec![
        DoneFile { file_path: Some("/e/a.pmtiles".into()), exists: true },
        DoneFile { file_path: Some("/e/lost.pmtiles".into()), exists: false },
        DoneFile { file_path: None, exists: false },
        DoneFile { file_path: Some("/c/b.pmtiles".into()), exists: true },
    ];
    let (lost, known) = reconcile_done(&done);
    assert_eq!(lost, vec![1, 2]);
    assert_eq!(known, vec!["/e/a.pmtiles".to_string(), "/c/b.pmtiles".to_string()]);

    let files = vec![
        DirFile { name: "a.pmtiles".into(), path: "/e/a.pmtiles".into() },
        DirFile { name: "orphan.pmtiles".into(), path: "/e/orphan.pmtiles".into() },
        DirFile { name: "notes.txt".into(), path: "/e/notes.txt".into() },
        DirFile { name: ".pmtiles".into(), path: "/e/.pmtiles".into() },
    ];
    assert_eq!(find_orphans(&files, &known), vec![1]);
    let report = SweepReport {
        expired: 0,
        evicted: 0,
        orphan_files_removed: 1,
        lost_files_marked: lost.len(),
    };
    assert_ne!(report, SweepReport::default());
}

#[test]
fn archive_names_follow_path_extension() {
    assert!(is_archive_file_name("x.pmtiles"));
    assert!(is_archive_file_name("a.b.pmtiles"));
    assert!(is_archive_file_name("..pmtiles"));
    assert!(!is_archive_file_name(".pmtiles"));
    assert!(!is_archive_file_name("x.pmtiles.part"));
    assert!(!is_archive_file_name("x.PMTILES"));
    assert!(!is_archive_file_name("pmtiles"));
}

#[test]
fn seeding_skips_active_and_present_jobs() {
    assert_eq!(plan_seed(false, &None, false), SeedAction::UnknownRegion);
    assert_eq!(plan_seed(true, &None, false), SeedAction::Enqueue);
    let queued = Job::new_region("europe".into(), "{}".into(), 15, true);
    assert_eq!(plan_seed(true, &Some(queued.clone()), false), SeedAction::AlreadyPresent);
    let mut done = queued.clone();
    done.status = JobStatus::Done;
    done.file_path = Some("/c/europe.pmtiles".into());
    assert_eq!(plan_seed(true, &Some(done.clone()), true), SeedAction::AlreadyPresent);
    assert_eq!(plan_seed(true, &Some(done.clone()), false), SeedAction::Enqueue);
    let mut failed = queued;
    failed.status = JobStatus::Failed;
    assert_eq!(plan_seed(true, &Some(failed), true), SeedAction::Enqueue);
}

#[test]
fn stored_rows_read_back_as_the_same_job() {
    let mut job = Job::new_custom("{\"type\":\"Polygon\"}".into(), 14, u64::MAX, "9.9.9.9".into());
    job.status = JobStatus::Done;
    job.file_size = Some(u64::MAX - 1);
    job.file_path = Some("/e/x.pmtiles".into());
    job.expires_at = Some(123);
    let row = job.to_stored();
    assert_eq!(row.kind, "custom");
    assert_eq!(row.status, "done");
    assert_eq!(row.maxzoom, 14);
    assert_eq!(row.estimated_tiles, -1);
    assert_eq!(row.pinned, 0);
    let back = Job::from_stored(row).ok().expect("decodes");
    assert_eq!(back.id, job.id);
    assert_eq!(back.estimated_tiles, u64::MAX);
    assert_eq!(back.file_size, Some(u64::MAX - 1));
    assert_eq!(back.status, JobStatus::Done);
    assert_eq!(back.expires_at, Some(123));
    assert!(!back.pinned);

    let mut row = Job::new_region("europe".into(), "{}".into(), 15, true).to_stored();
    assert_eq!(row.pinned, 1);
    row.maxzoom = 256 + 3;
    row.pinned = 7;
    let back = Job::from_stored(row).ok().expect("decodes");
    assert_eq!(back.maxzoom, 3);
    assert!(back.pinned);
    assert_eq!(back.kind, JobKind::Region);

    let mut row = Job::new_region("x".into(), "{}".into(), 15, false).to_stored();
    row.status = "paused".into();
    match Job::from_stored(row) {
        Err(e) => assert_eq!(e.message(), "database error: unknown job status: paused"),
        Ok(_) => panic!("accepted an unknown status"),
    }
}

fn region_job() -> Job {
    Job::new_region("england".into(), "{\"type\":\"Polygon\"}".into(), 12, false)
}

fn step(job: &Job, state: RunState, event: RunEvent, now: i64) -> (RunState, Vec<RunEffect>) {
    run_step(job, &paths(), 48 * MICROS_PER_HOUR, 24 * MICROS_PER_HOUR, state, event, now)
}

#[test]
fn run_steps_through_a_successful_job() {
    let job = region_job();
    let (state, effects) = step(&job, RunState::Start, RunEvent::Begin, 0);
    assert!(matches!(state, RunState::WritingGeojson));
    match &effects[..] {
        [RunEffect::WriteFile { path, contents }] => {
            assert_eq!(path, "/d/work/england.geojson");
            assert_eq!(contents, "{\"type\":\"Polygon\"}");
        }
        _ => panic!("expected the geojson write"),
    }

    let (state, effects) = step(&job, state, RunEvent::GeojsonWritten(Ok(())), 0);
    assert!(matches!(state, RunState::Extracting));
    match &effects[..] {
        [RunEffect::RunExtract(r)] => {
            assert_eq!(r.planet, "/d/planet.pmtiles");
            assert_eq!(r.region_geojson, "/d/work/england.geojson");
            assert_eq!(r.output, "/d/work/england.pmtiles");
            assert_eq!(r.maxzoom, 12);
        }
        _ => panic!("expected the extract"),
    }

    let (state, effects) = step(&job, state, RunEvent::ExtractFinished(Ok(13)), 0);
    assert!(matches!(state, RunState::Moving { file_size: 13 }));
    match &effects[..] {
        [RunEffect::RemoveFile(g), RunEffect::Rename { from, to }] => {
            assert_eq!(g, "/d/work/england.geojson");
            assert_eq!(from, "/d/work/england.pmtiles");
            assert_eq!(to, "/d/region-cache/england.pmtiles");
        }
        _ => panic!("expected clean-up and rename"),
    }

    let now = 1_000;
    let (state, effects) = step(&job, state, RunEvent::ArchiveMoved(Ok(())), now);
    assert!(matches!(state, RunState::MarkingDone));
    match &effects[..] {
        [RunEffect::UpdateStatus { status, detail }] => {
            assert_eq!(*status, JobStatus::Done);
            assert_eq!(detail.file_path.as_deref(), Some("/d/region-cache/england.pmtiles"));
            assert_eq!(detail.file_size, Some(13));
            assert_eq!(detail.finished_at, Some(now));
            assert_eq!(detail.expires_at, Some(now + 24 * MICROS_PER_HOUR));
        }
        _ => panic!("expected the done update"),
    }

    let (state, effects) = step(&job, state, RunEvent::StatusStored(Ok(())), now);
    assert!(matches!(state, RunState::Finished));
    assert!(matches!(&effects[..], [RunEffect::Finish(Ok(()))]));
}

#[test]
fn failed_extract_cleans_up_and_marks_failed() {
    let job = region_job();
    let (state, effects) =
        step(&job, RunState::Extracting, RunEvent::ExtractFinished(Err("boom".into())), 7);
    match &effects[..] {
        [RunEffect::RemoveFile(g), RunEffect::RemoveFile(w), RunEffect::UpdateStatus { status, detail }] => {
            assert_eq!(g, "/d/work/england.geojson");
            assert_eq!(w, "/d/work/england.pmtiles");
            assert_eq!(*status, JobStatus::Failed);
            assert_eq!(detail.error.as_deref(), Some("boom"));
            assert_eq!(detail.finished_at, Some(7));
        }
        _ => panic!("expected clean-up and the failed update"),
    }
    let (_, effects) = step(&job, state, RunEvent::StatusStored(Ok(())), 7);
    match &effects[..] {
        [RunEffect::Finish(Err(RunnerError::Extract(m)))] => assert_eq!(m, "boom"),
        _ => panic!("expected the extract error"),
    }
    // A store failure while marking it failed ends the run with a store error.
    let (state, _) =
        step(&job, RunState::Extracting, RunEvent::ExtractFinished(Err("boom".into())), 7);
    let (_, effects) = step(&job, state, RunEvent::StatusStored(Err("locked".into())), 7);
    match &effects[..] {
        [RunEffect::Finish(Err(RunnerError::Store(m)))] => assert_eq!(m, "locked"),
        _ => panic!("expected the store error"),
    }
}

#[test]
fn failed_write_and_move_are_io_errors() {
    let job = region_job();
    let (state, effects) =
        step(&job, RunState::WritingGeojson, RunEvent::GeojsonWritten(Err("disk full".into())), 3);
    match (&state, &effects[..]) {
        (RunState::MarkingFailed(RunnerError::Io(m)), [RunEffect::UpdateStatus { detail, .. }]) => {
            assert_eq!(m, "failed to write region geojson: disk full");
            assert_eq!(detail.error.as_deref(), Some(m.as_str()));
        }
        _ => panic!("expected the io failure"),
    }
    let (state, effects) = step(
        &job,
        RunState::Moving { file_size: 1 },
        RunEvent::ArchiveMoved(Err("cross-device".into())),
        3,
    );
    match (&state, &effects[..]) {
        (RunState::MarkingFailed(RunnerError::Io(m)), [RunEffect::RemoveFile(w), RunEffect::UpdateStatus { .. }]) => {
            assert_eq!(m, "failed to move finished archive: cross-device");
            assert_eq!(w, "/d/work/england.pmtiles");
        }
        _ => panic!("expected the move failure"),
    }
    // An event that does not belong to the state changes nothing.
    let (state, effects) = step(&job, RunState::Start, RunEvent::ArchiveMoved(Ok(())), 3);
    assert!(matches!(state, RunState::Start));
    assert!(effects.is_empty());
    assert!(!expiry_in_range(&job, i64::MAX, 1, 1));
    assert!(expiry_in_range(&job, 0, 1, 1));
}

#[test]
fn worker_actions_follow_the_claim() {
    assert!(matches!(worker_action(Ok(Some(region_job()))), WorkerAction::Run(j) if j.id == "england"));
    assert!(matches!(worker_action(Ok(None)), WorkerAction::Idle { secs: 30 }));
    match worker_action(Err(StoreError::Db("x".into()))) {
        WorkerAction::Backoff { error, secs } => {
            assert_eq!(secs, 5);
            assert_eq!(error.message(), "database error: x");
        }
        _ => panic!("expected a back-off"),
    }
    assert_eq!((IDLE_POLL_SECS, ERROR_BACKOFF_SECS), (30, 5));
}
