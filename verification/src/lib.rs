//! Core engine of a desktop wallpaper manager: paginated fetching of a
//! remote image catalog, reconciliation of a persisted set of favorites
//! with two UI-displayed views, disk-cache accounting and eviction, and
//! the bridges that deliver background results into UI-owned state that
//! may have been torn down in the meantime.
//!
//! The surrounding process (GUI, HTTP transport, filesystem, process
//! spawning) lives outside this crate and talks to it in plain values.

pub mod error;
pub mod likeset;
pub mod config;
pub mod cache;
pub mod catalog;
pub mod gallery;
pub mod rotation;
pub mod bridge;
pub mod systray;
