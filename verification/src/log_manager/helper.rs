//! Which versions an asset's log lacks, and where a missing entry goes so that the log stays
//! in version order.
use vstd::prelude::*;

use crate::string_formating::helper::{
    get_assetid_version_tag, parse_version_tuple, tag_parts, version_tuple,
};
use crate::text::{
    byte_len, char_width_exec, chars_of, contains_exec, contains_str, find_char_exec,
    find_char_from, find_str_exec, find_str_from, lemma_byte_len_prefix, lemma_byte_len_push,
    lemma_find_char_from_bounds, lemma_find_str_from_bounds, matches_at, string_of_range, trim,
    trim_bounds,
    views,
};

verus! {

// ---------------------------------------------------------------------------------------------
// Missing versions
// ---------------------------------------------------------------------------------------------

/// The heading line of a version's entry in a log: `"## <version>\n"`.
pub open spec fn entry_heading(version: Seq<char>) -> Seq<char> {
    "## "@ + version + "\n"@
}

/// The versions of `tags[i..]`, in order, whose heading line does not occur in the log
/// `content`; or the message for the first of those tags that has no `"-v"`.
pub open spec fn missing_from(content: Seq<char>, tags: Seq<Seq<char>>, i: int) -> Result<
    Seq<Seq<char>>,
    Seq<char>,
>
    decreases tags.len() - i,
{
    if i < 0 || i >= tags.len() {
        Ok(seq![])
    } else {
        match tag_parts(tags[i]) {
            None => Err("Tag format is invalid: "@ + tags[i]),
            Some((_, v)) => match missing_from(content, tags, i + 1) {
                Err(e) => Err(e),
                Ok(rest) => {
                    if contains_str(content, entry_heading(v)) {
                        Ok(rest)
                    } else {
                        Ok(seq![v] + rest)
                    }
                },
            },
        }
    }
}

/// `acc` put in front of what `r` holds.
pub open spec fn prepend(acc: Seq<Seq<char>>, r: Result<Seq<Seq<char>>, Seq<char>>) -> Result<
    Seq<Seq<char>>,
    Seq<char>,
> {
    match r {
        Ok(rest) => Ok(acc + rest),
        Err(e) => Err(e),
    }
}

/// The versions of `tags`, in order, that the log `content` has no entry for (no line
/// `"## <version>"`); or the message for the first tag without `"-v"`.
pub fn get_missing_version(file_content: &str, tags: &Vec<String>) -> (r: Result<
    Vec<String>,
    String,
>)
    ensures
        match missing_from(file_content@, views(tags@), 0) {
            Ok(vs) => r matches Ok(rv) && views(rv@) == vs,
            Err(m) => r matches Err(e) && e@ == m,
        },
{
    let content = chars_of(file_content);
    let mut missing: Vec<String> = Vec::new();
    let mut i: usize = 0;
    while i < tags.len()
        invariant
            i <= tags@.len(),
            content@ == file_content@,
            missing_from(file_content@, views(tags@), 0) == prepend(
                views(missing@),
                missing_from(file_content@, views(tags@), i as int),
            ),
        decreases tags@.len() - i,
    {
        assert(views(tags@)[i as int] == tags@[i as int]@);
        let version = match get_assetid_version_tag(tags[i].as_str()) {
            Ok((_, v)) => v,
            Err(e) => {
                return Err(e);
            },
        };
        let mut heading = String::from_str("## ");
        heading.append(version.as_str());
        heading.append("\n");
        let hv = chars_of(heading.as_str());
        let ghost old_missing = views(missing@);
        if !contains_exec(&content, &hv) {
            missing.push(version);
            assert(views(missing@) =~= old_missing + seq![version@]);
        }
        i = i + 1;
        proof {
            let m0 = missing_from(file_content@, views(tags@), (i - 1) as int);
            let m1 = missing_from(file_content@, views(tags@), i as int);
            match m1 {
                Ok(rest) => {
                    assert(old_missing + (seq![version@] + rest) =~= (old_missing + seq![
                        version@,
                    ]) + rest);
                },
                Err(_) => {},
            }
        }
    }
    assert(views(missing@) + seq![] =~= views(missing@));
    Ok(missing)
}

/// A log that has the entry of a version does not lack it: whatever the tags, that version
/// is not among those reported missing.
pub proof fn lemma_present_version_not_missing(
    content: Seq<char>,
    version: Seq<char>,
    tags: Seq<Seq<char>>,
    i: int,
)
    requires
        contains_str(content, entry_heading(version)),
    ensures
        missing_from(content, tags, i) matches Ok(vs) ==> !vs.contains(version),
    decreases tags.len() - i,
{
    if 0 <= i < tags.len() {
        lemma_present_version_not_missing(content, version, tags, i + 1);
        match tag_parts(tags[i]) {
            None => {},
            Some((_, v)) => match missing_from(content, tags, i + 1) {
                Err(_) => {},
                Ok(rest) => {
                    if !contains_str(content, entry_heading(v)) {
                        assert(v != version);
                        let vs = seq![v] + rest;
                        assert forall|x: int| 0 <= x < vs.len() implies vs[x] != version by {
                            if x > 0 {
                                assert(vs[x] == rest[x - 1]);
                            }
                        }
                    }
                },
            },
        }
    }
}

proof fn lemma_contains_at(s: Seq<char>, pat: Seq<char>, j: int)
    requires
        matches_at(s, pat, j),
    ensures
        contains_str(s, pat),
{
    lemma_find_str_from_bounds(s, pat, 0);
}

proof fn lemma_inserted_heading(content: Seq<char>, k: int, version: Seq<char>, rest: Seq<char>)
    requires
        0 <= k <= content.len(),
    ensures
        contains_str(
            content.take(k) + (entry_heading(version) + rest) + content.skip(k),
            entry_heading(version),
        ),
{
    let h = entry_heading(version);
    let t = content.take(k) + (h + rest) + content.skip(k);
    assert(t.subrange(k, k + h.len()) =~= h);
    lemma_contains_at(t, h, k);
}

/// Putting the entry of a version anywhere into a log gives a log that has that version's
/// heading, so the version is no longer missing from it.
pub proof fn lemma_inserted_entry_present(
    content: Seq<char>,
    k: int,
    metadata: crate::config::CommitMetadata,
    version: Seq<char>,
)
    requires
        0 <= k <= content.len(),
    ensures
        contains_str(
            content.take(k) + crate::string_formating::helper::log_entry_text(metadata, version)
                + content.skip(k),
            entry_heading(version),
        ),
        contains_str(
            content.take(k) + crate::string_formating::pub_helper::log_entry_text(
                metadata,
                version,
            ) + content.skip(k),
            entry_heading(version),
        ),
{
    reveal_strlit("## ");
    reveal_strlit("\n");
    reveal_strlit("\n- **Hash (full):** ");
    reveal_strlit("- **Hash (full):** ");
    let h = entry_heading(version);
    let a = crate::string_formating::helper::log_entry_text(metadata, version);
    let b = crate::string_formating::pub_helper::log_entry_text(metadata, version);
    assert(a =~= h + a.skip(h.len() as int));
    assert(b =~= h + b.skip(h.len() as int));
    lemma_inserted_heading(content, k, version, a.skip(h.len() as int));
    lemma_inserted_heading(content, k, version, b.skip(h.len() as int));
}

// ---------------------------------------------------------------------------------------------
// Insert positions
// ---------------------------------------------------------------------------------------------

/// `a` comes strictly before `b` in version order (major, then minor, then patch).
pub open spec fn version_lt(a: (u32, u32, u32), b: (u32, u32, u32)) -> bool {
    a.0 < b.0 || (a.0 == b.0 && (a.1 < b.1 || (a.1 == b.1 && a.2 < b.2)))
}

/// The end of the line that starts at or before `m`: the next `'\n'`, or the end of `s`.
pub open spec fn line_end(s: Seq<char>, m: int) -> int {
    match find_char_from(s, '\n', m) {
        Some(e) => e,
        None => s.len() as int,
    }
}

/// Scans the headings `"## "` of `s` from position `i` on (non-overlapping, left to right)
/// for the first whose version is later than `new_version`; gives the character position of
/// that heading, or the end of `s` when there is none, or the message for the first heading
/// that is not a version.
pub open spec fn heading_scan(s: Seq<char>, new_version: (u32, u32, u32), i: int) -> Result<
    int,
    Seq<char>,
>
    decreases s.len() + 1 - i,
{
    match find_str_from(s, "## "@, i) {
        None => Ok(s.len() as int),
        Some(m) => {
            proof {
                reveal_strlit("## ");
                lemma_find_str_from_bounds(s, "## "@, i);
            }
            let header = trim(s.subrange(m + 3, line_end(s, m)));
            match version_tuple(header) {
                Err(msg) => Err(msg),
                Ok(existing) => {
                    if version_lt(new_version, existing) {
                        Ok(m)
                    } else {
                        heading_scan(s, new_version, m + 3)
                    }
                },
            }
        },
    }
}

/// Where, as a byte offset into the log `content`, the entry of `version` goes: before the
/// first entry whose version is later, or at the end.
pub open spec fn insert_position(content: Seq<char>, version: Seq<char>) -> Result<nat, Seq<char>> {
    match version_tuple(version) {
        Err(m) => Err(m),
        Ok(nv) => match heading_scan(content, nv, 0) {
            Err(m) => Err(m),
            Ok(k) => Ok(byte_len(content.take(k))),
        },
    }
}

/// The version written on the heading line that starts at `k`.
pub open spec fn heading_version_at(s: Seq<char>, k: int) -> Result<(u32, u32, u32), Seq<char>> {
    version_tuple(trim(s.subrange(k + 3, line_end(s, k))))
}

/// `j` is one of the headings `"## "` that a left-to-right, non-overlapping scan of `s` from
/// position `i` meets.
pub open spec fn scan_meets(s: Seq<char>, i: int, j: int) -> bool
    decreases s.len() + 1 - i,
{
    match find_str_from(s, "## "@, i) {
        None => false,
        Some(m) => {
            proof {
                reveal_strlit("## ");
                lemma_find_str_from_bounds(s, "## "@, i);
            }
            j == m || scan_meets(s, m + 3, j)
        },
    }
}

/// The heading at `k` carries a version later than `nv`.
pub open spec fn later_heading(s: Seq<char>, k: int, nv: (u32, u32, u32)) -> bool {
    heading_version_at(s, k) matches Ok(e) && version_lt(nv, e)
}

/// The heading at `k` carries a version that is not later than `nv`.
pub open spec fn not_later_heading(s: Seq<char>, k: int, nv: (u32, u32, u32)) -> bool {
    heading_version_at(s, k) matches Ok(e) && !version_lt(nv, e)
}

proof fn lemma_scan_meets_after(s: Seq<char>, i: int, j: int)
    requires
        scan_meets(s, i, j),
    ensures
        i <= j,
        matches_at(s, "## "@, j),
    decreases s.len() + 1 - i,
{
    reveal_strlit("## ");
    lemma_find_str_from_bounds(s, "## "@, i);
    let m = find_str_from(s, "## "@, i)->Some_0;
    if j != m {
        lemma_scan_meets_after(s, m + 3, j);
    }
}

proof fn lemma_heading_scan_order(s: Seq<char>, nv: (u32, u32, u32), i: int, j: int)
    requires
        heading_scan(s, nv, i) is Ok,
    ensures
        ({
            let k = heading_scan(s, nv, i)->Ok_0;
            &&& k == s.len() || (scan_meets(s, i, k) && later_heading(s, k, nv))
            &&& (scan_meets(s, i, j) && j < k) ==> not_later_heading(s, j, nv)
        }),
    decreases s.len() + 1 - i,
{
    reveal_strlit("## ");
    lemma_find_str_from_bounds(s, "## "@, i);
    match find_str_from(s, "## "@, i) {
        None => {},
        Some(m) => {
            let e = heading_version_at(s, m)->Ok_0;
            if !version_lt(nv, e) {
                lemma_heading_scan_order(s, nv, m + 3, j);
            } else if scan_meets(s, i, j) && j != m {
                lemma_scan_meets_after(s, m + 3, j);
            }
        },
    }
}

/// The entry of a new version goes where the log stays in version order: the position is
/// the end of the log or the start of a heading whose version is later than the new one,
/// and every heading that comes before it, as the scan meets them, has a version that is
/// not later.
pub proof fn lemma_insert_position_keeps_order(content: Seq<char>, version: Seq<char>, j: int)
    requires
        insert_position(content, version) is Ok,
    ensures
        ({
            let nv = version_tuple(version)->Ok_0;
            let k = heading_scan(content, nv, 0)->Ok_0;
            &&& insert_position(content, version) == Ok::<nat, Seq<char>>(
                byte_len(content.take(k)),
            )
            &&& k == content.len() || (scan_meets(content, 0, k) && matches_at(
                content,
                "## "@,
                k,
            ) && later_heading(content, k, nv))
            &&& (scan_meets(content, 0, j) && j < k) ==> not_later_heading(content, j, nv)
        }),
{
    let nv = version_tuple(version)->Ok_0;
    lemma_heading_scan_order(content, nv, 0, j);
    let k = heading_scan(content, nv, 0)->Ok_0;
    if k != content.len() {
        lemma_scan_meets_after(content, 0, k);
    }
}

/// `a` does not come after `b` in version order.
pub open spec fn version_le(a: (u32, u32, u32), b: (u32, u32, u32)) -> bool {
    !version_lt(b, a)
}

proof fn lemma_heading_scan_bounds(s: Seq<char>, nv: (u32, u32, u32), i: int)
    requires
        heading_scan(s, nv, i) is Ok,
        0 <= i,
    ensures
        i <= heading_scan(s, nv, i)->Ok_0 || heading_scan(s, nv, i)->Ok_0 == s.len(),
        heading_scan(s, nv, i)->Ok_0 <= s.len(),
{
    reveal_strlit("## ");
    lemma_heading_scan_order(s, nv, i, 0);
    let k = heading_scan(s, nv, i)->Ok_0;
    if k != s.len() {
        lemma_scan_meets_after(s, i, k);
    }
}

proof fn lemma_heading_scan_monotone(s: Seq<char>, nv1: (u32, u32, u32), nv2: (u32, u32, u32), i: int)
    requires
        version_le(nv1, nv2),
        heading_scan(s, nv1, i) is Ok,
        heading_scan(s, nv2, i) is Ok,
        0 <= i,
    ensures
        heading_scan(s, nv1, i)->Ok_0 <= heading_scan(s, nv2, i)->Ok_0,
    decreases s.len() + 1 - i,
{
    reveal_strlit("## ");
    lemma_find_str_from_bounds(s, "## "@, i);
    match find_str_from(s, "## "@, i) {
        None => {},
        Some(m) => {
            let e = heading_version_at(s, m)->Ok_0;
            if version_lt(nv2, e) {
                assert(version_lt(nv1, e));
            } else if version_lt(nv1, e) {
                lemma_heading_scan_bounds(s, nv2, m + 3);
            } else {
                lemma_heading_scan_monotone(s, nv1, nv2, m + 3);
            }
        },
    }
}

/// A later version never goes before an earlier one: in the same log, the position of a
/// version that is not earlier is not smaller.
pub proof fn lemma_insert_position_monotone(content: Seq<char>, v1: Seq<char>, v2: Seq<char>)
    requires
        insert_position(content, v1) is Ok,
        insert_position(content, v2) is Ok,
        version_le(version_tuple(v1)->Ok_0, version_tuple(v2)->Ok_0),
    ensures
        insert_position(content, v1)->Ok_0 <= insert_position(content, v2)->Ok_0,
{
    let n1 = version_tuple(v1)->Ok_0;
    let n2 = version_tuple(v2)->Ok_0;
    lemma_heading_scan_monotone(content, n1, n2, 0);
    lemma_heading_scan_bounds(content, n1, 0);
    lemma_heading_scan_bounds(content, n2, 0);
    let k1 = heading_scan(content, n1, 0)->Ok_0;
    let k2 = heading_scan(content, n2, 0)->Ok_0;
    lemma_byte_len_prefix(content.take(k2), k1);
    assert(content.take(k2).take(k1) =~= content.take(k1));
}

/// The number of UTF-8 bytes of `v[..k]`.
fn prefix_byte_len(v: &Vec<char>, k: usize, total: usize) -> (r: usize)
    requires
        k <= v@.len(),
        byte_len(v@) == total,
    ensures
        r == byte_len(v@.take(k as int)),
{
    let mut i: usize = 0;
    let mut acc: usize = 0;
    while i < k
        invariant
            i <= k <= v@.len(),
            byte_len(v@) == total,
            acc == byte_len(v@.take(i as int)),
        decreases k - i,
    {
        proof {
            lemma_byte_len_push(v@.take(i as int), v@[i as int]);
            assert(v@.take(i as int).push(v@[i as int]) =~= v@.take(i + 1));
            lemma_byte_len_prefix(v@, i + 1);
        }
        let w = char_width_exec(v[i]);
        acc = acc + w;
        i = i + 1;
    }
    acc
}

/// The byte offset in `existing_content` at which the entry of `version` is to be inserted so
/// that the log stays in version order: the start of the first heading `"## <v>"` whose
/// version `<v>` is later than `version`, or the end of the log. Each heading met on the way
/// has to read as a version.
pub fn find_insert_position(existing_content: &str, version: &str) -> (r: Result<usize, String>)
    ensures
        match insert_position(existing_content@, version@) {
            Ok(p) => r matches Ok(rp) && rp == p,
            Err(m) => r matches Err(e) && e@ == m,
        },
        r matches Ok(p) ==> p <= byte_len(existing_content@),
{
    let new_version = match parse_version_tuple(version) {
        Ok(t) => t,
        Err(e) => {
            return Err(e);
        },
    };
    let total = existing_content.as_bytes().len();
    let v = chars_of(existing_content);
    let pat = chars_of("## ");
    proof {
        reveal_strlit("## ");
        assert(pat@ =~= seq!['#', '#', ' ']);
    }
    let mut i: usize = 0;
    loop
        invariant
            v@ == existing_content@,
            pat@ == "## "@,
            pat@ == seq!['#', '#', ' '],
            byte_len(v@) == total,
            version_tuple(version@) == Ok::<(u32, u32, u32), Seq<char>>(new_version),
            i <= v@.len(),
            heading_scan(v@, new_version, 0) == heading_scan(v@, new_version, i as int),
        decreases v@.len() + 1 - i,
    {
        match find_str_exec(&v, &pat, i) {
            None => {
                assert(v@.take(v@.len() as int) =~= v@);
                return Ok(total);
            },
            Some(m) => {
                proof {
                    lemma_find_str_from_bounds(v@, pat@, i as int);
                }
                let le = match find_char_exec(&v, '\n', m) {
                    Some(e) => e,
                    None => v.len(),
                };
                proof {
                    lemma_find_char_from_bounds(v@, '\n', m as int);
                    if le < m + 3 {
                        assert(v@.subrange(m as int, m + 3) == pat@);
                        assert(v@[le as int] == v@.subrange(m as int, m + 3)[le - m]);
                    }
                }
                let (lo, hi) = trim_bounds(&v, m + 3, le);
                let header = string_of_range(&v, lo, hi);
                match parse_version_tuple(header.as_str()) {
                    Err(e) => {
                        return Err(e);
                    },
                    Ok(existing) => {
                        if new_version.0 < existing.0 || (new_version.0 == existing.0 && (
                        new_version.1 < existing.1 || (new_version.1 == existing.1
                            && new_version.2 < existing.2))) {
                            proof {
                                lemma_byte_len_prefix(v@, m as int);
                            }
                            return Ok(prefix_byte_len(&v, m, total));
                        }
                    },
                }
                i = m + 3;
            },
        }
    }
}

} // verus!
