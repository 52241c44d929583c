//! Reading what Git prints, and the decisions taken around Git commands.
pub mod commit;
pub mod diff;
pub mod hash;
pub mod pub_helper;
pub mod tag;
