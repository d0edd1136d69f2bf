use pmtile_tool::error::ApiError;
use pmtile_tool::jobs::{Job, JobKind, JobStatus};
use pmtile_tool::martin_embed::{
    hop_by_hop, proxy_request_headers, strip_hop_by_hop, Header, TileProxyError,
};
use pmtile_tool::regions::loader::{IndexFeature, RegionError};
use pmtile_tool::regions::{Region, RegionCatalog};
use pmtile_tool::rest::download::plan_download;
use pmtile_tool::rest::rate_limit::{client_ip, CF_CONNECTING_IP};
use pmtile_tool::text::trim_white_space;
use pmtile_tool::rest::regions::{needs_queue_depth, plan_region_extract, RegionExtractStart};
use pmtile_tool::rest::ui::{asset_headers, asset_key, plan_ui, UiResponse};
use pmtile_tool::rest::views::download_url;

fn region(id: &str, parent: Option<&str>) -> Region {
    Region {
        id: id.into(),
        name: id.to_uppercase(),
        parent: parent.map(Into::into),
        geometry: "{\"type\":\"MultiPolygon\",\"coordinates\":[]}".into(),
    }
}

#[test]
fn builds_hierarchy() {
    let catalog = RegionCatalog::new(vec![
        region("europe", None),
        region("united-kingdom", Some("europe")),
        region("england", Some("united-kingdom")),
    ]);
    assert_eq!(catalog.len(), 3);
    assert!(catalog.has_children("europe"));
    assert!(catalog.has_children("united-kingdom"));
    assert!(!catalog.has_children("england"));

    let summaries = catalog.summaries();
    assert_eq!(summaries.len(), 3);
    let england = summaries
        .iter()
        .find(|s| s.id == "england")
        .expect("england");
    assert_eq!(england.parent.as_deref(), Some("united-kingdom"));
    assert!(!england.has_children);
}

#[test]
fn summaries_are_sorted_and_later_duplicates_win() {
    let mut dup = region("europe", None);
    dup.name = "Europa".into();
    let catalog = RegionCatalog::new(vec![
        region("wales", Some("united-kingdom")),
        region("europe", None),
        region("albania", Some("europe")),
        dup,
    ]);
    let ids: Vec<String> = catalog.summaries().into_iter().map(|s| s.id).collect();
    assert_eq!(ids, vec!["albania", "europe", "wales"]);
    assert_eq!(catalog.get("europe").expect("europe").name, "Europa");
    assert!(catalog.get("atlantis").is_none());
    assert!(catalog.has_children("united-kingdom"));
    assert!(!catalog.is_empty());
}

const MINI_INDEX: &str = r#"{
    "type": "FeatureCollection",
    "features": [
        {"type": "Feature", "properties": {"id": "europe", "name": "Europe"},
         "geometry": {"type": "MultiPolygon", "coordinates": [[[[0,0],[1,0],[1,1],[0,0]]]]}},
        {"type": "Feature", "properties": {"id": "united-kingdom", "parent": "europe", "name": "United Kingdom"},
         "geometry": {"type": "MultiPolygon", "coordinates": [[[[0,0],[0.5,0],[0.5,0.5],[0,0]]]]}},
        {"type": "Feature", "properties": {"name": "no id, skipped"},
         "geometry": {"type": "MultiPolygon", "coordinates": []}}
    ]
}"#;

#[test]
fn loads_mini_index() {
    let catalog = RegionCatalog::from_index_text("index.json", MINI_INDEX).expect("load");
    assert_eq!(catalog.len(), 2);
    let uk = catalog.get("united-kingdom").expect("uk");
    assert_eq!(uk.name, "United Kingdom");
    assert_eq!(uk.parent.as_deref(), Some("europe"));
    assert!(catalog.has_children("europe"));
    let geometry: serde_json::Value = serde_json::from_str(&uk.geometry).expect("geometry json");
    assert_eq!(geometry["type"], "MultiPolygon");
}

#[test]
fn index_text_errors_are_parse_errors() {
    match RegionCatalog::from_index_text("bad.json", "not json") {
        Err(RegionError::Parse(p, m)) => {
            assert_eq!(p, "bad.json");
            assert!(!m.is_empty());
        }
        _ => panic!("expected a parse error"),
    }
    // Valid GeoJSON that is not a FeatureCollection is a parse error too.
    let point = r#"{"type": "Point", "coordinates": [0, 0]}"#;
    assert!(matches!(
        RegionCatalog::from_index_text("p.json", point),
        Err(RegionError::Parse(_, _))
    ));
    let empty = r#"{"type": "FeatureCollection", "features": []}"#;
    match RegionCatalog::from_index_text("e.json", empty) {
        Err(e) => assert_eq!(e.message(), "region index e.json is empty"),
        Ok(_) => panic!("loaded an empty index"),
    }
}

#[test]
fn index_without_regions_is_empty_error() {
    let features = vec![IndexFeature {
        id: Some("x".into()),
        name: None,
        parent: None,
        geometry: None,
    }];
    match RegionCatalog::from_features("idx.json", features) {
        Err(e) => assert_eq!(e.message(), "region index idx.json is empty"),
        Ok(_) => panic!("loaded an empty index"),
    }
    let named = RegionCatalog::from_features(
        "i",
        vec![IndexFeature { id: Some("x".into()), name: None, parent: None, geometry: Some("{}".into()) }],
    )
    .expect("one region");
    assert_eq!(named.get("x").expect("x").name, "x");
    assert_eq!(
        RegionError::Io("i.json".into(), "nope".into()).message(),
        "failed to read region index i.json: nope"
    );
}

fn done(kind: JobKind) -> Job {
    let mut j = match kind {
        JobKind::Custom => Job::new_custom("{}".into(), 10, 1, "ip".into()),
        JobKind::Region => Job::new_region("england".into(), "{}".into(), 15, false),
    };
    j.status = JobStatus::Done;
    j.file_path = Some("/c/england.pmtiles".into());
    j
}

#[test]
fn download_decisions() {
    let ok = plan_download("england", JobKind::Region, &Some(done(JobKind::Region)), true);
    assert_eq!(ok.ok().as_deref(), Some("/c/england.pmtiles"));
    match plan_download("england", JobKind::Custom, &Some(done(JobKind::Region)), true) {
        Err(ApiError::NotFound(m)) => assert_eq!(m, "unknown job: england"),
        _ => panic!("kind mismatch served"),
    }
    match plan_download("nope", JobKind::Custom, &None, true) {
        Err(ApiError::NotFound(m)) => assert_eq!(m, "unknown job: nope"),
        _ => panic!("unknown served"),
    }
    let mut expired = done(JobKind::Region);
    expired.status = JobStatus::Expired;
    match plan_download("england", JobKind::Region, &Some(expired), true) {
        Err(ApiError::Gone(m)) => assert_eq!(m, "this download has expired"),
        _ => panic!("expired served"),
    }
    let mut running = done(JobKind::Region);
    running.status = JobStatus::Running;
    match plan_download("england", JobKind::Region, &Some(running), true) {
        Err(ApiError::NotFound(m)) => assert_eq!(m, "job is not finished (status: running)"),
        _ => panic!("running served"),
    }
    match plan_download("england", JobKind::Region, &Some(done(JobKind::Region)), false) {
        Err(ApiError::Gone(m)) => assert_eq!(m, "the archive is no longer available"),
        _ => panic!("missing file served"),
    }
}

#[test]
fn region_extract_decisions() {
    match plan_region_extract("atlantis", false, &None, false, 0, 20) {
        Err(ApiError::NotFound(m)) => assert_eq!(m, "unknown region: atlantis"),
        _ => panic!("unknown region accepted"),
    }
    assert_eq!(
        plan_region_extract("england", true, &None, false, 0, 20).ok(),
        Some(RegionExtractStart::Enqueue { replace: false })
    );
    let queued = Job::new_region("england".into(), "{}".into(), 15, false);
    assert_eq!(
        plan_region_extract("england", true, &Some(queued), false, 25, 20).ok(),
        Some(RegionExtractStart::UseExisting)
    );
    assert_eq!(
        plan_region_extract("england", true, &Some(done(JobKind::Region)), true, 0, 20).ok(),
        Some(RegionExtractStart::UseExisting)
    );
    assert_eq!(
        plan_region_extract("england", true, &Some(done(JobKind::Region)), false, 0, 20).ok(),
        Some(RegionExtractStart::Enqueue { replace: true })
    );
    match plan_region_extract("england", true, &None, false, 20, 20) {
        Err(ApiError::Busy(m)) => assert_eq!(m, "export queue is full, try again later"),
        _ => panic!("full queue accepted"),
    }
    assert_eq!(
        plan_region_extract("england", true, &Some(done(JobKind::Custom)), true, 0, 20).ok(),
        Some(RegionExtractStart::Enqueue { replace: false })
    );
}

#[test]
fn download_urls_only_for_done_jobs() {
    let region = done(JobKind::Region);
    assert_eq!(download_url(&region).as_deref(), Some("/api/v1/regions/england/download"));
    let mut custom = done(JobKind::Custom);
    custom.id = "abc".into();
    assert_eq!(download_url(&custom).as_deref(), Some("/api/v1/exports/abc/download"));
    custom.status = JobStatus::Queued;
    assert_eq!(download_url(&custom), None);
}

#[test]
fn ui_paths_map_to_assets() {
    assert_eq!(asset_key("/"), "index.html");
    assert_eq!(asset_key(""), "index.html");
    assert_eq!(asset_key("//assets/app.js"), "assets/app.js");
    assert_eq!(plan_ui("assets/app.js", true, true), UiResponse::Asset);
    assert_eq!(plan_ui("regions/europe", false, true), UiResponse::Index);
    assert_eq!(plan_ui("missing.js", false, true), UiResponse::NotFound);
    assert_eq!(plan_ui("regions", false, false), UiResponse::NotFound);
    let h = asset_headers("assets/app.js");
    assert_eq!(h.content_type, "text/javascript");
    assert_eq!(h.cache_control.as_deref(), Some("public, max-age=31536000, immutable"));
    let h = asset_headers("index.html");
    assert_eq!(h.content_type, "text/html");
    assert_eq!(h.cache_control, None);
    assert_eq!(asset_headers("blob.unknownext").content_type, "application/octet-stream");
}

fn header(name: &str, value: &str) -> Header {
    Header { name: name.into(), value: value.as_bytes().to_vec() }
}

#[test]
fn hop_by_hop_headers_are_stripped() {
    let out = strip_hop_by_hop(vec![
        header("connection", "keep-alive"),
        header("content-type", "application/json"),
    ]);
    assert!(!out.iter().any(|h| h.name == "connection"));
    assert!(out.iter().any(|h| h.name == "content-type"));
    assert!(hop_by_hop("transfer-encoding"));
    assert!(!hop_by_hop("content-encoding"));
}

#[test]
fn proxy_derives_forwarded_headers() {
    let out = proxy_request_headers(vec![
        header("host", "example.org"),
        header("te", "trailers"),
        header("accept", "*/*"),
    ]);
    let names: Vec<&str> = out.iter().map(|h| h.name.as_str()).collect();
    assert_eq!(names, vec!["accept", "x-forwarded-host", "x-forwarded-proto"]);
    assert_eq!(out[1].value, b"example.org".to_vec());
    assert_eq!(out[2].value, b"http".to_vec());

    let out = proxy_request_headers(vec![
        header("x-forwarded-host", "tiles.example"),
        header("x-forwarded-proto", "https"),
        header("host", "internal"),
    ]);
    let names: Vec<&str> = out.iter().map(|h| h.name.as_str()).collect();
    assert_eq!(names, vec!["x-forwarded-host", "x-forwarded-proto"]);
    assert_eq!(out[0].value, b"tiles.example".to_vec());
    assert_eq!(out[1].value, b"https".to_vec());
    assert_eq!(
        TileProxyError::Unreachable("refused".into()).message(),
        "tile server unreachable: refused"
    );
}

#[test]
fn prefers_cloudflare_header() {
    let header = Some(trim_white_space(" 203.0.113.9 "));
    let peer = Some(String::from("10.0.0.1"));
    assert_eq!(client_ip(header, peer), Some(String::from("203.0.113.9")));
}

#[test]
fn falls_back_to_peer() {
    let peer = Some(String::from("10.0.0.1"));
    assert_eq!(client_ip(None, peer), Some(String::from("10.0.0.1")));
}

#[test]
fn garbage_header_falls_back() {
    // "not-an-ip" does not parse as an address, so no header address is passed.
    let peer = Some(String::from("10.0.0.1"));
    assert_eq!(client_ip::<String>(None, peer), Some(String::from("10.0.0.1")));
    assert_eq!(CF_CONNECTING_IP, "cf-connecting-ip");
}

#[test]
fn none_when_nothing_available() {
    assert_eq!(client_ip::<String>(None, None), None);
}

#[test]
fn queue_depth_is_read_only_when_no_job_is_reused() {
    let mut job = Job::new_region("england".into(), "{}".into(), 15, false);
    assert!(!needs_queue_depth(true, &Some(job.clone()), false));
    job.status = JobStatus::Failed;
    assert!(needs_queue_depth(true, &Some(job.clone()), false));
    assert!(needs_queue_depth(true, &None, false));
    assert!(!needs_queue_depth(false, &None, false));
}
