//! Tags: listing them, reading the latest tag of a file from `git log --decorate`, and
//! making the next tag of an asset.
use vstd::prelude::*;

use crate::config::NO_TAG_ERROR;
use crate::text::{
    byte_len, char_width, char_width_exec, chars_of, concat2, dec_padded, find_str_exec,
    find_str_from, first_line, lemma_find_str_from_bounds, lines, parse_uint, parse_uint_range, result_view,
    split_lines, string_of_range, trim, trim_bounds, u64_to_dec4, views,
};

verus! {

/// The `git tag --list` pattern that selects the tags of one asset: `<asset_id>-v*`.
pub fn tag_pattern(asset_id: &str) -> (p: String)
    ensures
        p@ == asset_id@ + "-v*"@,
{
    concat2(asset_id, "-v*")
}

/// The tags that `git tag --list` printed, one per line, in the order printed.
pub fn parse_tag_list(stdout: &str) -> (tags: Vec<String>)
    ensures
        views(tags@) == lines(stdout@),
{
    split_lines(stdout)
}

/// The first tag that `git tag --list --sort=-creatordate` printed (the newest one), or the
/// "no tag" message when it printed nothing.
pub fn latest_tag_from_list(stdout: &str) -> (r: Result<String, String>)
    ensures
        match r {
            Ok(t) => lines(stdout@).len() > 0 && t@ == lines(stdout@)[0],
            Err(e) => lines(stdout@).len() == 0 && e@ == NO_TAG_ERROR@,
        },
{
    match first_line(stdout) {
        Some(l) => Ok(l),
        None => Err(String::from_str(NO_TAG_ERROR)),
    }
}

// ---------------------------------------------------------------------------------------------
// The latest tag of a file
// ---------------------------------------------------------------------------------------------

/// The first position at or after `i` that holds `')'` or `','`.
pub open spec fn find_tag_end_from(s: Seq<char>, i: int) -> Option<int>
    decreases s.len() - i,
{
    if i < 0 || i >= s.len() {
        None
    } else if s[i] == ')' || s[i] == ',' {
        Some(i)
    } else {
        find_tag_end_from(s, i + 1)
    }
}

/// The name of the first tag in a `git log --oneline --decorate` line: the text after the
/// first `"tag: "` up to the next `')'` or `','` (or the end of the line), trimmed.
pub open spec fn decorated_tag(line: Seq<char>) -> Option<Seq<char>> {
    match find_str_from(line, "tag: "@, 0) {
        None => None,
        Some(t) => {
            let part = line.skip(t + 5);
            let end = match find_tag_end_from(part, 0) {
                Some(e) => e,
                None => part.len() as int,
            };
            Some(trim(part.take(end)))
        },
    }
}

/// What the newest commit that touched a file says of its tag, from the output of
/// `git log -n 1 --oneline --decorate -- <file>`: the first tag on its first line, or the
/// "no tag" message when there is no line or no tag on it.
pub open spec fn latest_tag_of_log(git_history: Seq<char>) -> Result<Seq<char>, Seq<char>> {
    if lines(git_history).len() == 0 {
        Err(NO_TAG_ERROR@)
    } else {
        match decorated_tag(lines(git_history)[0]) {
            Some(t) => Ok(t),
            None => Err(NO_TAG_ERROR@),
        }
    }
}

/// Reads the latest tag of a file out of the output of
/// `git log -n 1 --oneline --decorate -- <file>`.
pub fn parse_latest_tag(git_history: &str) -> (r: Result<String, String>)
    ensures
        match r {
            Ok(t) => latest_tag_of_log(git_history@) == Ok::<Seq<char>, Seq<char>>(t@),
            Err(e) => latest_tag_of_log(git_history@) == Err::<Seq<char>, Seq<char>>(e@),
        },
{
    let line = match first_line(git_history) {
        Some(l) => l,
        None => {
            return Err(String::from_str(NO_TAG_ERROR));
        },
    };
    let v = chars_of(line.as_str());
    let pat = chars_of("tag: ");
    proof {
        reveal_strlit("tag: ");
    }
    match find_str_exec(&v, &pat, 0) {
        None => Err(String::from_str(NO_TAG_ERROR)),
        Some(t) => {
            proof {
                lemma_find_str_from_bounds(v@, pat@, 0);
            }
            let vlen = v.len();
            assert(t + 5 <= vlen);
            let start = t + 5;
            let ghost part = v@.skip(start as int);
            let mut i: usize = start;
            while i < v.len() && v[i] != ')' && v[i] != ','
                invariant
                    start <= i <= v@.len(),
                    part == v@.skip(start as int),
                    find_tag_end_from(part, 0) == find_tag_end_from(part, i - start),
                decreases v@.len() - i,
            {
                i = i + 1;
            }
            let (lo, hi) = trim_bounds(&v, start, i);
            proof {
                assert(part.take(i - start) =~= v@.subrange(start as int, i as int));
                if i < v@.len() {
                    assert(find_tag_end_from(part, i - start) == Some((i - start) as int));
                } else {
                    assert(find_tag_end_from(part, i - start) is None);
                    assert(part.len() == i - start);
                }
            }
            Ok(string_of_range(&v, lo, hi))
        },
    }
}

// ---------------------------------------------------------------------------------------------
// The next tag of an asset
// ---------------------------------------------------------------------------------------------

/// The position in `s` at which its last `n` bytes (in UTF-8) begin, if that position is
/// the start of a character.
pub open spec fn tail_start(s: Seq<char>, n: nat) -> Option<int>
    decreases s.len(),
{
    if n == 0 {
        Some(s.len() as int)
    } else if s.len() == 0 {
        None
    } else if char_width(s.last()) > n {
        None
    } else {
        tail_start(s.drop_last(), (n - char_width(s.last())) as nat)
    }
}

/// Where the last `n` bytes begin lies within the text.
pub proof fn lemma_tail_start_bounds(s: Seq<char>, n: nat)
    ensures
        tail_start(s, n) matches Some(k) ==> 0 <= k <= s.len(),
    decreases s.len(),
{
    if n > 0 && s.len() > 0 && char_width(s.last()) <= n {
        lemma_tail_start_bounds(s.drop_last(), (n - char_width(s.last())) as nat);
    }
}

/// The tag that follows `latest`, the newest tag of `asset_id` or the error met in
/// looking for it:
/// - a tag whose last four bytes are a number gets that number plus one, written with at
///   least four digits, in their place;
/// - a tag shorter than four bytes, or whose last four bytes are no number, is refused;
/// - when the asset has no tag yet, its first tag is `<asset_id>-v00.00.0001`;
/// - any other error is passed on.
pub open spec fn next_tag_of(asset_id: Seq<char>, latest: Result<Seq<char>, Seq<char>>) -> Result<
    Seq<char>,
    Seq<char>,
> {
    match latest {
        Ok(tag) => {
            if byte_len(tag) < 4 {
                Err("Tag is too short to parse suffix"@)
            } else {
                let k = tail_start(tag, 4)->0;
                let suffix = tag.skip(k);
                match parse_uint(suffix, u32::MAX as nat) {
                    Ok(n) => Ok(tag.take(k) + dec_padded(n + 1, 4)),
                    Err(_) => Err("invalid last 4 digit: "@ + suffix),
                }
            }
        },
        Err(e) => {
            if e == NO_TAG_ERROR@ {
                Ok(asset_id + "-v00.00.0001"@)
            } else {
                Err("Git command failed: "@ + e)
            }
        },
    }
}

/// Makes the next tag of `asset_id` from `latest`, its newest tag or the error met in
/// looking for it.
pub fn next_tag(asset_id: &str, latest: Result<String, String>) -> (r: Result<String, String>)
    requires
        latest matches Ok(tag) ==> (byte_len(tag@) >= 4 ==> tail_start(tag@, 4) is Some),
    ensures
        result_view(r) == next_tag_of(asset_id@, result_view(latest)),
{
    match latest {
        Ok(tag) => {
            let blen = tag.as_str().as_bytes().len();
            if blen < 4 {
                return Err(String::from_str("Tag is too short to parse suffix"));
            }
            let v = chars_of(tag.as_str());
            let mut j: usize = v.len();
            let mut acc: usize = 0;
            assert(v@.take(j as int) =~= tag@);
            while acc < 4
                invariant
                    v@ == tag@,
                    j <= v@.len(),
                    acc <= 4,
                    tail_start(tag@, 4) is Some,
                    tail_start(tag@, 4) == tail_start(v@.take(j as int), (4 - acc) as nat),
                decreases j,
            {
                assert(v@.take(j as int).drop_last() =~= v@.take(j - 1));
                let w = char_width_exec(v[j - 1]);
                acc = acc + w;
                j = j - 1;
            }
            assert(tail_start(v@.take(j as int), 0) == Some(j as int));
            match parse_uint_range(&v, j, v.len(), u32::MAX) {
                Ok(n) => {
                    let mut s = string_of_range(&v, 0, j);
                    let d = u64_to_dec4((n as u64) + 1);
                    s.append(d.as_str());
                    assert(v@.subrange(0, j as int) =~= tag@.take(j as int));
                    assert(v@.subrange(j as int, v@.len() as int) =~= tag@.skip(j as int));
                    Ok(s)
                },
                Err(_) => {
                    let suffix = string_of_range(&v, j, v.len());
                    assert(v@.subrange(j as int, v@.len() as int) =~= tag@.skip(j as int));
                    Err(concat2("invalid last 4 digit: ", suffix.as_str()))
                },
            }
        },
        Err(e) => {
            if e == String::from_str(NO_TAG_ERROR) {
                Ok(concat2(asset_id, "-v00.00.0001"))
            } else {
                Err(concat2("Git command failed: ", e.as_str()))
            }
        },
    }
}

} // verus!
