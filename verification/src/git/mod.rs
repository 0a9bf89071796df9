//! What gitpilot computes from the state of a Git repository.
pub mod branches;
pub mod commits;
pub mod diff;
pub mod status;
