//! What the commands say and decide.

pub mod default;
pub mod doctor;
pub mod init;
pub mod status;
pub mod uninstall;
pub mod update;
