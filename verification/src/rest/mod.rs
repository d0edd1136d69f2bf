//! Request handling rules of the HTTP API: what a download, a region extract
//! request or a UI path is answered with.
pub mod download;
pub mod rate_limit;
pub mod regions;
pub mod status;
pub mod ui;
pub mod views;
