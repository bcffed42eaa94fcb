//! State manifest at `~/.config/henk/state.json`: everything henk has done on
//! the user's machine. Drives idempotent `init`, `doctor --repair`, `update`
//! migrations and `uninstall`.
//!
//! Two rules hold:
//!   1. The audit log is append-only; history is never rewritten.
//!   2. `installed_by` decides what `uninstall --deep` may remove: packages that
//!      were there before henk are never touched.

pub mod state;
pub mod steps;

pub use state::{
    no_install_attribution, path, AuditEntry, InitRun, InstalledBy, LinkedProject, StateGuard,
    StateManifest, Step, StepState,
};
