//! Verified core of the PMTiles extract service: configuration, job
//! bookkeeping, admission and cleanup decisions, and request handling rules.
pub mod config;
pub mod disk;
pub mod error;
pub mod extract;
pub mod jobs;
pub mod martin_embed;
pub mod regions;
pub mod release_version;
pub mod rest;
pub mod text;
