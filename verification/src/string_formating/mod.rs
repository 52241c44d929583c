//! Tags, versions and log entries as text.
pub mod commands;
pub mod helper;
pub mod pub_helper;
