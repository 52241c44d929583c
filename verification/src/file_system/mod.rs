//! The project's files: which entries are shown, how a file's type is named, and where an
//! asset's log lives.
pub mod commands;
pub mod pub_helper;
