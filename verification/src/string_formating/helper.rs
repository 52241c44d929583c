//! Tags of the form `<asset_id>-v<version>`, versions of the form `v<major>.<minor>.<patch>`,
//! and the text of a log entry.
use vstd::prelude::*;

use crate::config::CommitMetadata;
use crate::git::tag::{latest_tag_of_log, parse_latest_tag};
use crate::paths::{parent_path, path_parent, path_strip_prefix, strip_path_prefix};
use crate::text::{
    chars_of, concat2, find_char_exec, find_char_from, lemma_find_char_from_bounds, parse_uint,
    parse_uint_range, result_view, string_of_range, IntError,
};

verus! {

// ---------------------------------------------------------------------------------------------
// Log entries
// ---------------------------------------------------------------------------------------------

/// The Markdown entry of one version in an asset's log.
pub open spec fn log_entry_text(metadata: CommitMetadata, version: Seq<char>) -> Seq<char> {
    "## "@ + version + "\n- **Hash (full):** "@ + metadata.commit_hash@
        + "\n- **Hash (short):** "@ + metadata.abbreviated_hash@ + "\n- **Author:** "@
        + metadata.author_name@ + "\n- **Created At:** "@ + metadata.author_date@
        + "\n- **Summary:** "@ + metadata.subject@ + "\n\n- **Message:**\n"@ + metadata.body@
        + "\n\n---\n\n\n"@
}

/// Formats the commit metadata of `version` as an entry of the asset's log.
pub fn format_commit_metadata(metadata: CommitMetadata, version: &str) -> (r: String)
    ensures
        r@ == log_entry_text(metadata, version@),
{
    let mut s = String::from_str("## ");
    s.append(version);
    s.append("\n- **Hash (full):** ");
    s.append(metadata.commit_hash.as_str());
    s.append("\n- **Hash (short):** ");
    s.append(metadata.abbreviated_hash.as_str());
    s.append("\n- **Author:** ");
    s.append(metadata.author_name.as_str());
    s.append("\n- **Created At:** ");
    s.append(metadata.author_date.as_str());
    s.append("\n- **Summary:** ");
    s.append(metadata.subject.as_str());
    s.append("\n\n- **Message:**\n");
    s.append(metadata.body.as_str());
    s.append("\n\n---\n\n\n");
    s
}

// ---------------------------------------------------------------------------------------------
// Tags
// ---------------------------------------------------------------------------------------------

/// `s` holds the separator `"-v"` at position `i`.
pub open spec fn is_sep_at(s: Seq<char>, i: int) -> bool {
    0 <= i && i + 1 < s.len() && s[i] == '-' && s[i + 1] == 'v'
}

/// The last position before `j` that holds the separator `"-v"`.
pub open spec fn rfind_sep(s: Seq<char>, j: int) -> Option<int>
    decreases j,
{
    if j <= 0 {
        None
    } else if is_sep_at(s, j - 1) {
        Some(j - 1)
    } else {
        rfind_sep(s, j - 1)
    }
}

pub proof fn lemma_rfind_sep(s: Seq<char>, j: int)
    ensures
        rfind_sep(s, j) matches Some(i) ==> (is_sep_at(s, i) && i < j && forall|k: int|
            i < k < j ==> !is_sep_at(s, k)),
        rfind_sep(s, j) is None ==> forall|k: int| k < j ==> !is_sep_at(s, k),
    decreases j,
{
    if j <= 0 {
    } else if is_sep_at(s, j - 1) {
    } else {
        lemma_rfind_sep(s, j - 1);
    }
}

/// The position of the last separator `"-v"` in a tag (where `rsplitn(2, "-v")` splits).
pub open spec fn last_sep(s: Seq<char>) -> Option<int> {
    rfind_sep(s, s.len() as int)
}

/// The asset id and the version (with its leading `'v'`) of a tag: what stands before and
/// after its last `"-v"`.
pub open spec fn tag_parts(tag: Seq<char>) -> Option<(Seq<char>, Seq<char>)> {
    match last_sep(tag) {
        Some(i) => Some((tag.take(i), seq!['v'] + tag.skip(i + 2))),
        None => None,
    }
}

/// The message for a tag without `"-v"`.
pub open spec fn invalid_tag_text(tag: Seq<char>) -> Seq<char> {
    "Tag format is invalid: "@ + tag
}

/// Finds the last `"-v"` in `v`.
pub fn last_sep_exec(v: &Vec<char>) -> (r: Option<usize>)
    ensures
        match r {
            Some(i) => last_sep(v@) == Some(i as int) && i + 2 <= v@.len(),
            None => last_sep(v@) is None,
        },
{
    proof {
        lemma_rfind_sep(v@, v@.len() as int);
    }
    let mut j: usize = v.len();
    while j > 0
        invariant
            j <= v@.len(),
            last_sep(v@) == rfind_sep(v@, j as int),
        decreases j,
    {
        if j < v.len() && v[j - 1] == '-' && v[j] == 'v' {
            return Some(j - 1);
        }
        j = j - 1;
    }
    None
}

/// Splits a tag `<asset_id>-v<version>` at its last `"-v"` into the asset id and the version
/// (which keeps a leading `'v'`).
pub fn get_assetid_version_tag(tag: &str) -> (r: Result<(String, String), String>)
    ensures
        match tag_parts(tag@) {
            Some((a, v)) => r matches Ok((ra, rv)) && ra@ == a && rv@ == v,
            None => r matches Err(e) && e@ == invalid_tag_text(tag@),
        },
{
    let v = chars_of(tag);
    match last_sep_exec(&v) {
        None => Err(concat2("Tag format is invalid: ", tag)),
        Some(i) => {
            let asset_id = string_of_range(&v, 0, i);
            let mut version = String::new();
            version.push('v');
            let n = v.len();
            let rest = string_of_range(&v, i + 2, n);
            version.append(rest.as_str());
            assert(asset_id@ =~= tag@.take(i as int));
            assert(version@ =~= seq!['v'] + tag@.skip(i + 2));
            Ok((asset_id, version))
        },
    }
}

/// What `get_assetid_version_path` gives for the output of
/// `git log -n 1 --oneline --decorate -- <file>`: the asset id and version of the tag found
/// there, or why there is none.
pub open spec fn assetid_version_of_log(git_history: Seq<char>) -> Result<
    (Seq<char>, Seq<char>),
    Seq<char>,
> {
    match latest_tag_of_log(git_history) {
        Err(e) => Err(e),
        Ok(tag) => match tag_parts(tag) {
            Some(p) => Ok(p),
            None => Err(invalid_tag_text(tag)),
        },
    }
}

/// The views of a result that holds two strings.
pub open spec fn pair_result_view(r: Result<(String, String), String>) -> Result<
    (Seq<char>, Seq<char>),
    Seq<char>,
> {
    match r {
        Ok((a, b)) => Ok((a@, b@)),
        Err(e) => Err(e@),
    }
}

/// The asset id and version of a file, from the output of
/// `git log -n 1 --oneline --decorate -- <file>` for it.
pub fn get_assetid_version_path(git_history: &str) -> (r: Result<(String, String), String>)
    ensures
        pair_result_view(r) == assetid_version_of_log(git_history@),
{
    let tag = match parse_latest_tag(git_history) {
        Ok(t) => t,
        Err(e) => {
            return Err(e);
        },
    };
    get_assetid_version_tag(tag.as_str())
}

// ---------------------------------------------------------------------------------------------
// Directories
// ---------------------------------------------------------------------------------------------

/// The directory, relative to `root_path`, that holds `full_path`.
pub open spec fn relative_directory(full_path: Seq<char>, root_path: Seq<char>) -> Result<
    Seq<char>,
    Seq<char>,
> {
    match path_strip_prefix(full_path, root_path) {
        Err(e) => Err("Path is not inside root: "@ + e),
        Ok(rel) => match path_parent(rel) {
            None => Err("Failed to get parent directory"@),
            Some(p) => Ok(p),
        },
    }
}

/// The directory, relative to `root_path`, that holds `full_path`: `full_path` without the
/// components of `root_path` and without its own last component.
pub fn get_relative_directory_path(full_path: &str, root_path: &str) -> (r: Result<String, String>)
    ensures
        result_view(r) == relative_directory(full_path@, root_path@),
{
    match strip_path_prefix(full_path, root_path) {
        Err(e) => Err(concat2("Path is not inside root: ", e.as_str())),
        Ok(rel) => match parent_path(rel.as_str()) {
            None => Err(String::from_str("Failed to get parent directory")),
            Some(p) => Ok(p),
        },
    }
}

// ---------------------------------------------------------------------------------------------
// Versions
// ---------------------------------------------------------------------------------------------

/// A version without one leading `'v'`.
pub open spec fn strip_v(s: Seq<char>) -> Seq<char> {
    if s.len() > 0 && s[0] == 'v' {
        s.drop_first()
    } else {
        s
    }
}

/// `s` split at its first two dots (`splitn(3, '.')`), when it has two.
pub open spec fn split3(s: Seq<char>) -> Option<(Seq<char>, Seq<char>, Seq<char>)> {
    match find_char_from(s, '.', 0) {
        None => None,
        Some(a) => match find_char_from(s, '.', a + 1) {
            None => None,
            Some(b) => Some((s.take(a), s.subrange(a + 1, b), s.skip(b + 1))),
        },
    }
}

/// The numbers of a version `[v]<major>.<minor>.<patch>`, or the message that says which
/// part is wrong.
pub open spec fn version_tuple(version: Seq<char>) -> Result<(u32, u32, u32), Seq<char>> {
    let v = strip_v(version);
    match split3(v) {
        None => Err("malformed version: "@ + v),
        Some((p0, p1, p2)) => {
            if parse_uint(p0, u32::MAX as nat) is Err {
                Err("bad major: "@ + p0)
            } else if parse_uint(p1, u32::MAX as nat) is Err {
                Err("bad minor: "@ + p1)
            } else if parse_uint(p2, u32::MAX as nat) is Err {
                Err("bad patch: "@ + p2)
            } else {
                Ok(
                    (
                        parse_uint(p0, u32::MAX as nat)->Ok_0 as u32,
                        parse_uint(p1, u32::MAX as nat)->Ok_0 as u32,
                        parse_uint(p2, u32::MAX as nat)->Ok_0 as u32,
                    ),
                )
            }
        },
    }
}

/// Parses `v[lo..hi]` as a `u32`, or gives `what` followed by the part.
fn parse_part(v: &Vec<char>, lo: usize, hi: usize, what: &str) -> (r: Result<u32, String>)
    requires
        lo <= hi <= v@.len(),
    ensures
        match r {
            Ok(n) => parse_uint(v@.subrange(lo as int, hi as int), u32::MAX as nat) == Ok::<
                nat,
                IntError,
            >(n as nat),
            Err(e) => parse_uint(v@.subrange(lo as int, hi as int), u32::MAX as nat) is Err
                && e@ == what@ + v@.subrange(lo as int, hi as int),
        },
{
    match parse_uint_range(v, lo, hi, u32::MAX) {
        Ok(n) => Ok(n),
        Err(_) => {
            let part = string_of_range(v, lo, hi);
            Err(concat2(what, part.as_str()))
        },
    }
}

/// Reads a version `[v]<major>.<minor>.<patch>` as three numbers.
pub fn parse_version_tuple(version: &str) -> (r: Result<(u32, u32, u32), String>)
    ensures
        match version_tuple(version@) {
            Ok(t) => r == Ok::<(u32, u32, u32), String>(t),
            Err(m) => r matches Err(e) && e@ == m,
        },
{
    let full = chars_of(version);
    let start: usize = if full.len() > 0 && full[0] == 'v' {
        1
    } else {
        0
    };
    let v = crate::text::sub_vec(&full, start, full.len());
    assert(v@ =~= strip_v(version@));
    let a = match find_char_exec(&v, '.', 0) {
        Some(a) => a,
        None => {
            let s = string_of_range(&v, 0, v.len());
            assert(v@.subrange(0, v@.len() as int) =~= v@);
            return Err(concat2("malformed version: ", s.as_str()));
        },
    };
    proof {
        lemma_find_char_from_bounds(v@, '.', 0);
    }
    let b = match find_char_exec(&v, '.', a + 1) {
        Some(b) => b,
        None => {
            let s = string_of_range(&v, 0, v.len());
            assert(v@.subrange(0, v@.len() as int) =~= v@);
            return Err(concat2("malformed version: ", s.as_str()));
        },
    };
    proof {
        lemma_find_char_from_bounds(v@, '.', a + 1);
        assert(v@.take(a as int) =~= v@.subrange(0, a as int));
        assert(v@.skip(b + 1) =~= v@.subrange(b + 1, v@.len() as int));
    }
    let major = match parse_part(&v, 0, a, "bad major: ") {
        Ok(n) => n,
        Err(e) => {
            return Err(e);
        },
    };
    let minor = match parse_part(&v, a + 1, b, "bad minor: ") {
        Ok(n) => n,
        Err(e) => {
            return Err(e);
        },
    };
    let patch = match parse_part(&v, b + 1, v.len(), "bad patch: ") {
        Ok(n) => n,
        Err(e) => {
            return Err(e);
        },
    };
    Ok((major, minor, patch))
}

} // verus!
