//! How gitpilot presents what it found.
pub mod tables;
pub mod theme;
