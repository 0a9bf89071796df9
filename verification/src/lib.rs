//! gitpilot: the logic of a Git assistant for the daily developer workflow,
//! verified with Verus.
pub mod commands;
pub mod config;
pub mod display;
pub mod error;
pub mod git;
pub mod text;
pub mod update;
