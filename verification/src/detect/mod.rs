//! Detection probes: what the host system looks like, as a report that drives
//! the wizard and the `henk init --dry-run` table.
//!
//! The probes are read-only. Each one says which command to run and what its
//! outcome means.


pub mod backend;
pub mod brew;
pub mod coexistence;
pub mod docker;
pub mod ports;
pub mod report;
pub mod resolver;
pub mod tld;

pub use report::{run_all, DetectionItem, DetectionReport, HostFacts, Status};
pub use tld::{TldChoice, TldReason};
