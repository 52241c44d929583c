//! Where the log of an asset lives: one Markdown file per asset, directly in `.logs/`.
use vstd::prelude::*;

use crate::config::LOG_PATH;
use crate::paths::{join_path, path_join};
use crate::text::concat3;

verus! {

/// The log of an asset, relative to the project's root: `.logs/<asset_id>.md`.
pub open spec fn log_path_of(asset_id: Seq<char>) -> Seq<char> {
    LOG_PATH@ + "/"@ + asset_id + ".md"@
}

/// The log of the asset `asset_id`, as stored in the database: `.logs/<asset_id>.md`,
/// relative to the project's root, so that it stays valid when the root folder moves.
pub fn get_log_path(asset_id: &str) -> (p: String)
    ensures
        p@ == log_path_of(asset_id@),
{
    let mut p = concat3(LOG_PATH, "/", asset_id);
    p.append(".md");
    p
}

/// The log file of the asset `asset_id` in the project at `root_path`, for reading and
/// writing it: the stored log path joined to the root.
pub fn log_file_path(root_path: &str, asset_id: &str) -> (p: String)
    ensures
        p@ == path_join(root_path@, log_path_of(asset_id@)),
{
    let rel = get_log_path(asset_id);
    join_path(root_path, rel.as_str())
}

/// One log per asset, flat in `.logs/`: the stored log path is relative (it does not start
/// with `'/'`), two different assets never share a log, and the log of an asset id without
/// `'/'` is a file directly inside `.logs/` (its only `'/'` is the one after `.logs`).
pub proof fn lemma_log_paths_per_asset(a1: Seq<char>, a2: Seq<char>)
    ensures
        log_path_of(a1)[0] != '/',
        a1 != a2 ==> log_path_of(a1) != log_path_of(a2),
        (forall|i: int| 0 <= i < a1.len() ==> a1[i] != '/') ==> forall|i: int|
            0 <= i < log_path_of(a1).len() && log_path_of(a1)[i] == '/' ==> i == LOG_PATH@.len(),
{
    reveal_strlit(".logs");
    reveal_strlit("/");
    reveal_strlit(".md");
    assert(LOG_PATH@ == ".logs"@);
    assert(LOG_PATH@.len() == 5);
    let p1 = log_path_of(a1);
    let p2 = log_path_of(a2);
    assert(p1.len() == a1.len() + 9);
    assert(p2.len() == a2.len() + 9);
    assert(p1[0] == '.');
    if p1 == p2 {
        assert(a1.len() == a2.len());
        assert(a1 =~= p1.subrange(6, 6 + a1.len() as int));
        assert(a2 =~= p2.subrange(6, 6 + a2.len() as int));
    }
    if forall|i: int| 0 <= i < a1.len() ==> a1[i] != '/' {
        assert forall|i: int| 0 <= i < p1.len() && p1[i] == '/' implies i == LOG_PATH@.len() by {
            if 6 <= i < 6 + a1.len() {
                assert(p1[i] == a1[i - 6]);
            } else if i >= 6 + a1.len() {
                assert(p1[i] == ".md"@[i - 6 - a1.len()]);
            }
        }
    }
}

} // verus!
