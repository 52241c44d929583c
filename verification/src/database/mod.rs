//! The SQLite cache of assets, links and the asset counter: the queries the project runs and
//! what it makes of their answers.
pub mod commands;
pub mod helper;
