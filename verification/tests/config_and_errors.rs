use pmtile_tool::config::{join_path, AppConfig, ConfigError, Limits, Retention};
use pmtile_tool::disk::{total_file_bytes, DirEntryInfo};
use pmtile_tool::error::ApiError;

#[test]
fn default_config_matches_documented_defaults() {
    let cfg = AppConfig::default();
    assert_eq!(cfg.listen, "0.0.0.0:8080");
    assert_eq!(cfg.martin_listen, "127.0.0.1:3111");
    assert_eq!(cfg.limits.max_maxzoom, 15);
    assert_eq!(cfg.retention.export_ttl_hours, 48);
    assert_eq!(cfg.limits.active_jobs_per_ip, 2);
    assert!(cfg.seed_regions.is_empty());
    assert_eq!(Retention::default().region_ttl_hours, 48);
    assert_eq!(Limits::default().data_budget_gb, 70);
}

#[test]
fn data_paths_hang_off_data_dir() {
    let mut cfg = AppConfig::default();
    assert_eq!(cfg.planet_path(), "data/planet.pmtiles");
    cfg.data_dir = "/data".into();
    assert_eq!(cfg.planet_path(), "/data/planet.pmtiles");
    assert_eq!(cfg.exports_dir(), "/data/exports");
    assert_eq!(cfg.region_cache_dir(), "/data/region-cache");
    assert_eq!(cfg.work_dir(), "/data/work");
    assert_eq!(cfg.db_path(), "/data/db/pmtile-tool.sqlite");
    cfg.data_dir = "/data/".into();
    assert_eq!(cfg.work_dir(), "/data/work");
    cfg.data_dir = "".into();
    assert_eq!(cfg.work_dir(), "work");
    assert_eq!(join_path("/a", "/abs"), "/abs");
}

#[test]
fn byte_budgets_saturate() {
    let mut limits = Limits::default();
    assert_eq!(limits.data_budget_bytes(), 70 * 1_073_741_824);
    assert_eq!(limits.max_custom_export_bytes(), 10 * 1_073_741_824);
    limits.data_budget_gb = u64::MAX / 2;
    assert_eq!(limits.data_budget_bytes(), u64::MAX);
}

#[test]
fn config_error_messages_name_the_file() {
    assert_eq!(
        ConfigError::Io("c.yaml".into(), "denied".into()).message(),
        "failed to read c.yaml: denied"
    );
    assert_eq!(
        ConfigError::Parse("c.yaml".into(), "bad".into()).message(),
        "failed to parse c.yaml: bad"
    );
}

#[test]
fn api_errors_map_to_status_and_body() {
    let cases: Vec<(ApiError, u16)> = vec![
        (ApiError::NotFound("x".into()), 404),
        (ApiError::Validation("x".into()), 400),
        (ApiError::TooLarge { estimated_tiles: 1, max_tiles: 0 }, 422),
        (ApiError::RateLimited("x".into()), 429),
        (ApiError::Busy("x".into()), 503),
        (ApiError::Conflict("x".into()), 409),
        (ApiError::Gone("x".into()), 410),
        (ApiError::Internal("x".into()), 500),
    ];
    for (e, code) in cases {
        assert_eq!(e.status(), code);
    }
    let e = ApiError::TooLarge { estimated_tiles: 200000000, max_tiles: 150000000 };
    let body = e.body();
    assert_eq!(
        body.error,
        "export too large: estimated 200000000 tiles exceeds the limit of 150000000"
    );
    assert_eq!(body.estimated_tiles, Some(200000000));
    assert_eq!(body.max_tiles, Some(150000000));
    let body = ApiError::Internal("boom".into()).body();
    assert_eq!(body.error, "internal error: boom");
    assert_eq!(body.estimated_tiles, None);
    assert_eq!(ApiError::NotFound("unknown region: x".into()).message(), "unknown region: x");
    match ApiError::database("locked") {
        ApiError::Internal(m) => assert_eq!(m, "database error: locked"),
        _ => panic!("not internal"),
    }
    match ApiError::io("eof") {
        ApiError::Internal(m) => assert_eq!(m, "io error: eof"),
        _ => panic!("not internal"),
    }
}

#[test]
fn dir_size_counts_regular_files_only() {
    let entries = vec![
        DirEntryInfo { is_file: true, len: 100 },
        DirEntryInfo { is_file: false, len: 4096 },
        DirEntryInfo { is_file: true, len: 50 },
    ];
    assert_eq!(total_file_bytes(&entries), Some(150));
    assert_eq!(total_file_bytes(&vec![]), Some(0));
    let huge = vec![
        DirEntryInfo { is_file: true, len: u64::MAX },
        DirEntryInfo { is_file: true, len: 1 },
    ];
    assert_eq!(total_file_bytes(&huge), None);
}
