//! Application configuration and its defaults. Reading the YAML file is the
//! server's job; the values, the defaults and the derived paths live here.
use vstd::prelude::*;
use crate::jobs::cleanup::GIB;
use crate::text::{concat, push_str, chars_of};

verus! {

/// `base` joined with `part` as `Path::join` does on Unix: an absolute `part`
/// replaces `base`; otherwise a `/` separates the two unless `base` is empty
/// or already ends with one.
pub open spec fn path_join(base: Seq<char>, part: Seq<char>) -> Seq<char> {
    if part.len() > 0 && part[0] == '/' {
        part
    } else if base.len() == 0 || base.last() == '/' {
        base + part
    } else {
        base + seq!['/'] + part
    }
}

/// Joining follows `Path::join`: an absolute component replaces the base;
/// a relative one is appended after exactly one `/` (none is added when the
/// base is empty or already ends with `/`), so the result ends with the
/// component and starts with the base.
pub proof fn lemma_path_join(base: Seq<char>, part: Seq<char>)
    ensures
        (part.len() > 0 && part[0] == '/') ==> path_join(base, part) == part,
        !(part.len() > 0 && part[0] == '/') ==> {
            let r = path_join(base, part);
            &&& r.subrange(r.len() - part.len(), r.len() as int) == part
            &&& r.subrange(0, base.len() as int) == base
            &&& (base.len() > 0 && base.last() != '/') ==> r == base + seq!['/'] + part
            &&& (base.len() == 0 || base.last() == '/') ==> r.len() == base.len() + part.len()
        },
{
    if !(part.len() > 0 && part[0] == '/') {
        let r = path_join(base, part);
        assert(r.subrange(r.len() - part.len(), r.len() as int) =~= part);
        assert(r.subrange(0, base.len() as int) =~= base);
    }
}

/// Joins a path and a relative or absolute component.
pub fn join_path(base: &str, part: &str) -> (p: String)
    ensures
        p@ == path_join(base@, part@),
{
    let pc = chars_of(part);
    if pc.len() > 0 && pc[0] == '/' {
        return String::from_str(part);
    }
    let bc = chars_of(base);
    if bc.len() == 0 || bc[bc.len() - 1] == '/' {
        concat(base, part)
    } else {
        let mut p = concat(base, "/");
        proof {
            reveal_strlit("/");
            assert("/"@ =~= seq!['/']);
        }
        push_str(&mut p, part);
        p
    }
}

/// The product `a * b`, or `u64::MAX` when it does not fit.
pub open spec fn sat_mul(a: u64, b: u64) -> u64 {
    if a * b > u64::MAX { u64::MAX } else { (a * b) as u64 }
}

/// Service limits.
#[derive(Debug, Clone, Copy)]
pub struct Limits {
    pub max_maxzoom: u8,
    pub max_estimated_tiles: u64,
    /// Hard ceiling on a single custom export's estimated size.
    pub max_custom_export_gb: u64,
    pub max_polygon_vertices: usize,
    pub jobs_per_ip_per_hour: u32,
    pub active_jobs_per_ip: u32,
    pub queue_depth_max: u32,
    pub max_concurrent_extracts: usize,
    pub extract_timeout_minutes: u64,
    /// Average bytes per tile used for size estimates (derived from planet build).
    pub avg_tile_bytes: u64,
    /// Aggressive limiter on job-creating endpoints.
    pub job_rate_limit_per_second: u64,
    pub job_rate_limit_burst: u32,
    /// Laxer limiter on downloads and estimates; ranged preview reads are chatty.
    pub download_rate_limit_per_second: u64,
    pub download_rate_limit_burst: u32,
    /// Total disk budget for all writable extracts (custom exports plus cached
    /// regions) excluding the planet archive.
    pub data_budget_gb: u64,
}

impl Limits {
    /// The writable-data budget in bytes (saturating).
    pub fn data_budget_bytes(&self) -> (b: u64)
        ensures
            b == sat_mul(self.data_budget_gb, GIB),
    {
        match self.data_budget_gb.checked_mul(GIB) {
            Some(v) => v,
            None => u64::MAX,
        }
    }

    /// The per-export size ceiling in bytes (saturating).
    pub fn max_custom_export_bytes(&self) -> (b: u64)
        ensures
            b == sat_mul(self.max_custom_export_gb, GIB),
    {
        match self.max_custom_export_gb.checked_mul(GIB) {
            Some(v) => v,
            None => u64::MAX,
        }
    }
}

impl Default for Limits {
    fn default() -> (l: Limits)
        ensures
            l.max_maxzoom == 15,
            l.max_estimated_tiles == 150_000_000,
            l.max_custom_export_gb == 10,
            l.max_polygon_vertices == 1000,
            l.jobs_per_ip_per_hour == 5,
            l.active_jobs_per_ip == 2,
            l.queue_depth_max == 20,
            l.max_concurrent_extracts == 1,
            l.extract_timeout_minutes == 60,
            l.avg_tile_bytes == 85,
            l.job_rate_limit_per_second == 1,
            l.job_rate_limit_burst == 3,
            l.download_rate_limit_per_second == 20,
            l.download_rate_limit_burst == 100,
            l.data_budget_gb == 70,
    {
        Limits {
            max_maxzoom: 15,
            max_estimated_tiles: 150_000_000,
            max_custom_export_gb: 10,
            max_polygon_vertices: 1000,
            jobs_per_ip_per_hour: 5,
            active_jobs_per_ip: 2,
            queue_depth_max: 20,
            max_concurrent_extracts: 1,
            extract_timeout_minutes: 60,
            avg_tile_bytes: 85,
            job_rate_limit_per_second: 1,
            job_rate_limit_burst: 3,
            download_rate_limit_per_second: 20,
            download_rate_limit_burst: 100,
            data_budget_gb: 70,
        }
    }
}

/// How long finished outputs are kept.
#[derive(Debug, Clone, Copy)]
pub struct Retention {
    pub export_ttl_hours: i64,
    pub region_ttl_hours: i64,
}

impl Default for Retention {
    fn default() -> (r: Retention)
        ensures
            r.export_ttl_hours == 48,
            r.region_ttl_hours == 48,
    {
        Retention { export_ttl_hours: 48, region_ttl_hours: 48 }
    }
}

/// Application configuration; every field has a default so the service also
/// runs without a config file.
#[derive(Debug, Clone)]
pub struct AppConfig {
    /// Public listen address for the HTTP app.
    pub listen: String,
    /// Loopback listen address for the embedded tile server.
    pub martin_listen: String,
    /// Directory holding planet.pmtiles, exports/, region-cache/, work/ and the job db.
    pub data_dir: String,
    /// Path to the go-pmtiles binary used for extracts.
    pub go_pmtiles_bin: String,
    /// Vendored Geofabrik index with region hierarchy and geometries.
    pub regions_index: String,
    /// Region ids extracted at startup and pinned (never evicted).
    pub seed_regions: Vec<String>,
    pub limits: Limits,
    pub retention: Retention,
}

impl Default for AppConfig {
    fn default() -> (c: AppConfig)
        ensures
            c.listen@ == "0.0.0.0:8080"@,
            c.martin_listen@ == "127.0.0.1:3111"@,
            c.data_dir@ == "data"@,
            c.go_pmtiles_bin@ == "pmtiles"@,
            c.regions_index@ == "assets/geofabrik-index-v1.json"@,
            c.seed_regions@.len() == 0,
            c.limits.max_maxzoom == 15,
            c.limits.max_estimated_tiles == 150_000_000,
            c.limits.max_custom_export_gb == 10,
            c.limits.max_polygon_vertices == 1000,
            c.limits.jobs_per_ip_per_hour == 5,
            c.limits.active_jobs_per_ip == 2,
            c.limits.queue_depth_max == 20,
            c.limits.max_concurrent_extracts == 1,
            c.limits.extract_timeout_minutes == 60,
            c.limits.avg_tile_bytes == 85,
            c.limits.job_rate_limit_per_second == 1,
            c.limits.job_rate_limit_burst == 3,
            c.limits.download_rate_limit_per_second == 20,
            c.limits.download_rate_limit_burst == 100,
            c.limits.data_budget_gb == 70,
            c.retention.export_ttl_hours == 48,
            c.retention.region_ttl_hours == 48,
    {
        AppConfig {
            listen: String::from_str("0.0.0.0:8080"),
            martin_listen: String::from_str("127.0.0.1:3111"),
            data_dir: String::from_str("data"),
            go_pmtiles_bin: String::from_str("pmtiles"),
            regions_index: String::from_str("assets/geofabrik-index-v1.json"),
            seed_regions: Vec::new(),
            limits: Limits::default(),
            retention: Retention::default(),
        }
    }
}

impl AppConfig {
    /// The planet archive: `<data_dir>/planet.pmtiles`.
    pub fn planet_path(&self) -> (p: String)
        ensures
            p@ == path_join(self.data_dir@, "planet.pmtiles"@),
    {
        join_path(self.data_dir.as_str(), "planet.pmtiles")
    }

    /// Finished custom exports: `<data_dir>/exports`.
    pub fn exports_dir(&self) -> (p: String)
        ensures
            p@ == path_join(self.data_dir@, "exports"@),
    {
        join_path(self.data_dir.as_str(), "exports")
    }

    /// Cached region extracts: `<data_dir>/region-cache`.
    pub fn region_cache_dir(&self) -> (p: String)
        ensures
            p@ == path_join(self.data_dir@, "region-cache"@),
    {
        join_path(self.data_dir.as_str(), "region-cache")
    }

    /// Scratch space for running extracts: `<data_dir>/work`.
    pub fn work_dir(&self) -> (p: String)
        ensures
            p@ == path_join(self.data_dir@, "work"@),
    {
        join_path(self.data_dir.as_str(), "work")
    }

    /// The job database: `<data_dir>/db/pmtile-tool.sqlite`.
    pub fn db_path(&self) -> (p: String)
        ensures
            p@ == path_join(path_join(self.data_dir@, "db"@), "pmtile-tool.sqlite"@),
    {
        let db = join_path(self.data_dir.as_str(), "db");
        join_path(db.as_str(), "pmtile-tool.sqlite")
    }
}

/// Failure to load the configuration file.
#[derive(Debug)]
pub enum ConfigError {
    /// The file named by the path could not be read.
    Io(String, String),
    /// The file named by the path is not a valid configuration.
    Parse(String, String),
}

impl ConfigError {
    /// The human-readable message of the error.
    pub fn message(&self) -> (m: String)
        ensures
            m@ == match self {
                ConfigError::Io(p, e) => "failed to read "@ + p@ + ": "@ + e@,
                ConfigError::Parse(p, e) => "failed to parse "@ + p@ + ": "@ + e@,
            },
    {
        let (mut m, p, e) = match self {
            ConfigError::Io(p, e) => (String::from_str("failed to read "), p, e),
            ConfigError::Parse(p, e) => (String::from_str("failed to parse "), p, e),
        };
        push_str(&mut m, p.as_str());
        push_str(&mut m, ": ");
        push_str(&mut m, e.as_str());
        m
    }
}

} // verus!
