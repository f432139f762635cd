//! Core of a visual-regression tool: it maps configured reference
//! screenshots to live URLs, diffs each reference against a freshly
//! captured bitmap, assembles the diff artifacts into a single HTML
//! report, and re-runs the whole pipeline when watched files change.
//!
//! Browser automation, image codecs and file-system notification are
//! external collaborators; the orchestration, the diff engine and the
//! report builder live here, each with a verified contract.

pub mod bitmap;
pub mod config;
pub mod diff;
pub mod outside;
pub mod pipeline;
pub mod report;
pub mod watch;
