//! Unix paths as the standard library's `Path` treats them.
use vstd::prelude::*;

use crate::text::{concat2, concat3, result_view};

verus! {

/// `base.join(part)` for Unix paths: an absolute `part` replaces `base`; otherwise `part`
/// is appended, after a `'/'` unless `base` is empty or already ends with one.
pub open spec fn path_join(base: Seq<char>, part: Seq<char>) -> Seq<char> {
    if part.len() > 0 && part[0] == '/' {
        part
    } else if base.len() == 0 || base.last() == '/' {
        base + part
    } else {
        base + seq!['/'] + part
    }
}

/// Joins two Unix paths as `Path::join` does.
pub fn join_path(base: &str, part: &str) -> (r: String)
    ensures
        r@ == path_join(base@, part@),
{
    let b = crate::text::chars_of(base);
    let p = crate::text::chars_of(part);
    if p.len() > 0 && p[0] == '/' {
        String::from_str(part)
    } else if b.len() == 0 || b[b.len() - 1] == '/' {
        concat2(base, part)
    } else {
        proof {
            reveal_strlit("/");
        }
        concat3(base, "/", part)
    }
}

/// What `Path::strip_prefix` gives: the path that is left of `path` once the components
/// of `base` are taken off its front, or the text of the error when `base` is not a prefix.
pub uninterp spec fn path_strip_prefix(path: Seq<char>, base: Seq<char>) -> Result<
    Seq<char>,
    Seq<char>,
>;

/// What `Path::parent` gives: `path` without its last component, or nothing when `path`
/// ends in a root or is empty.
pub uninterp spec fn path_parent(path: Seq<char>) -> Option<Seq<char>>;

/// Calls `Path::strip_prefix`. The contract claims only that the result, or the `Display`
/// text of the error, is `path_strip_prefix` of the two paths; what that is is left to the
/// standard library.
#[verifier::external_body]
pub(crate) fn strip_path_prefix(path: &str, base: &str) -> (r: Result<String, String>)
    ensures
        result_view(r) == path_strip_prefix(path@, base@),
{
    match std::path::Path::new(path).strip_prefix(base) {
        Ok(p) => Ok(p.to_string_lossy().into_owned()),
        Err(e) => Err(e.to_string()),
    }
}

/// Calls `Path::parent`. The contract claims only that the result is `path_parent` of the
/// path; what that is is left to the standard library.
#[verifier::external_body]
pub(crate) fn parent_path(path: &str) -> (r: Option<String>)
    ensures
        match r {
            Some(p) => path_parent(path@) == Some(p@),
            None => path_parent(path@) is None,
        },
{
    match std::path::Path::new(path).parent() {
        Some(p) => Some(p.to_string_lossy().into_owned()),
        None => None,
    }
}

} // verus!
