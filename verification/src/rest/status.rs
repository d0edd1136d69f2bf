//! The service status reported by the status endpoint.
use vstd::prelude::*;

verus! {

/// Queue depth and disk headroom.
#[derive(Debug)]
pub struct StatusView {
    pub queued: u32,
    pub running: u32,
    pub disk_free_bytes: u64,
    pub region_cache_bytes: u64,
    pub version: &'static str,
}

} // verus!
