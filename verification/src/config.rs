//! Names of the project's files, tables and columns, fixed messages, and the records that
//! the library hands out.
use vstd::prelude::*;

verus! {

// paths inside a project root
pub const GIT_PATH: &'static str = ".git";

pub const LOG_PATH: &'static str = ".logs";

pub const IMAGE_PATH: &'static str = ".images";

pub const DB_PATH: &'static str = ".assets.sqlite";

// SQL tables
pub const COUNTER_ID: i32 = 0;

pub const ASSETS_TABLE: &'static str = "assets";

pub const COUNTER_TABLE: &'static str = "counters";

pub const LINK_TABLE: &'static str = "link";

// columns of ASSETS_TABLE
pub const ASSET_ID: &'static str = "asset_id";

pub const CURRENT_NAME: &'static str = "current_name";

pub const CURRENT_PATH: &'static str = "current_path";

pub const LOG_PATH_SQL: &'static str = "log_path";

pub const CREATED_AT: &'static str = "created_at";

// columns of COUNTER_TABLE
pub const ID: &'static str = "id";

pub const NEXT_ASSET_ID: &'static str = "next_asset_id";

// columns of LINK_TABLE
pub const NEW_PATH: &'static str = "new_path";

pub const OLD_PATH: &'static str = "old_path";

// fixed messages
pub const NO_TAG_ERROR: &'static str = "No tag";

pub const NO_COMMIT_METADATA: &'static str = "No commit metadata found";

// retries
pub const MAX_RETRY_ATTEMPTS: u64 = 100;

/// Milliseconds to wait before a retry.
pub const RETRY_DELAY: u64 = 150;

/// A file or a directory of the project, with the entries below a directory.
#[derive(Debug)]
pub struct FileNode {
    pub name: String,
    pub is_dir: bool,
    pub children: Option<Vec<FileNode>>,
}

/// What the file system says of a file or directory.
#[derive(Debug)]
pub struct CommonMetadata {
    pub name: String,
    pub size_bytes: u64,
    pub modified_ddmmyyyy: String,
    pub created_ddmmyyyy: String,
    pub is_dir: bool,
    pub file_type: String,
}

/// What the file system and the version history say of a tracked file.
#[derive(Debug)]
pub struct FileMetadata {
    pub name: String,
    pub size_bytes: u64,
    pub modified_ddmmyyyy: String,
    pub created_ddmmyyyy: String,
    pub is_dir: bool,
    pub file_type: String,
    pub current_version: String,
    pub current_hash: String,
}

/// The fields of one commit, as `git log` prints them.
#[derive(Debug)]
pub struct CommitMetadata {
    pub commit_hash: String,
    pub abbreviated_hash: String,
    pub author_name: String,
    pub author_date: String,
    pub subject: String,
    pub body: String,
}

/// One row of the assets table.
#[derive(Debug)]
pub struct AssetValues {
    pub asset_id: String,
    pub current_name: String,
    pub current_path: String,
    pub log_path: String,
    pub created_at: String,
}

/// A table's column names and its rows rendered as text.
#[derive(Debug)]
pub struct TableData {
    pub columns: Vec<String>,
    pub rows: Vec<Vec<String>>,
}

/// A file that Git saw disappear at `old_path` and appear at `new_path`, with the
/// similarity score Git gave the pair.
#[derive(Debug)]
pub struct RenameCandidate {
    pub old_path: String,
    pub new_path: String,
    pub score: u8,
}

} // verus!
