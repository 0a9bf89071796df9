//! The decisions behind each of gitpilot's commands.
pub mod cleanup;
pub mod clone;
pub mod init;
pub mod log;
pub mod review;
pub mod stash;
pub mod status;
pub mod summary;
pub mod switch;
pub mod sync;
pub mod undo;
