//! henk: local-dev URL routing for Docker on macOS.

pub mod cli;
pub mod clock;
pub mod config;
pub mod consts;
pub mod detect;
pub mod manifest;
pub mod outline;
pub mod paint;
pub mod project;
pub mod runner;
pub mod search;
pub mod stack;
pub mod table;
pub mod text;
pub mod tui;
pub mod yaml;
