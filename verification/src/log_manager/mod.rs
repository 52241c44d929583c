//! The per-asset Markdown logs.
pub mod helper;
pub mod order;
