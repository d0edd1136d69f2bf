//! Size estimates for an extract.
use vstd::prelude::*;
use crate::config::sat_mul;

verus! {

/// How many tiles an extract covers, and roughly how many bytes that is.
#[derive(Debug, Clone, Copy)]
pub struct Estimate {
    pub tiles: u64,
    pub bytes: u64,
}

impl Estimate {
    /// The estimate for `tiles` tiles at `avg_tile_bytes` bytes each; the
    /// byte count saturates at `u64::MAX`.
    pub fn from_tiles(tiles: u64, avg_tile_bytes: u64) -> (e: Estimate)
        ensures
            e.tiles == tiles,
            e.bytes == sat_mul(tiles, avg_tile_bytes),
    {
        let bytes = match tiles.checked_mul(avg_tile_bytes) {
            Some(b) => b,
            None => u64::MAX,
        };
        Estimate { tiles, bytes }
    }
}

} // verus!
