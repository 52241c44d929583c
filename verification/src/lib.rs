//! Verified core of a per-asset version-control tool built on Git.
pub mod config;
pub mod database;
pub mod file_system;
pub mod git;
pub mod initialize;
pub mod log_manager;
pub mod paths;
pub mod stamp;
pub mod string_formating;
pub mod text;
