//! Per-project linking: detection, `.env` handling, preflight and manifests.

pub mod compose;
pub mod detect;
pub mod entry_lines;
pub mod env_file;
pub mod file_provider;
pub mod link;
pub mod link_report;
pub mod manifest;
pub mod override_file;
pub mod preflight;
pub mod unlink;
