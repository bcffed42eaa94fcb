//! The live dashboard.

pub mod dashboard;
