//! Logs made of entries in version order, and where a new entry goes in them.
use vstd::prelude::*;

use crate::config::CommitMetadata;
use crate::log_manager::helper::{
    entry_heading, heading_scan, heading_version_at, insert_position, line_end, version_le,
    version_lt,
};
use crate::string_formating::commands::{lemma_version_chars, version_char};
use crate::string_formating::helper::version_tuple;
use crate::string_formating::{helper, pub_helper};
use crate::text::{
    byte_len, find_char_from, find_str_from, lemma_find_char_from_bounds, matches_at, trim,
    trim_end, trim_start,
};

verus! {

/// An entry of a log, given by its version and its body: the heading of the version, then
/// the body.
pub open spec fn entry_text(e: (Seq<char>, Seq<char>)) -> Seq<char> {
    entry_heading(e.0) + e.1
}

/// The text of a log made of `es`, one entry after the other.
pub open spec fn log_text(es: Seq<(Seq<char>, Seq<char>)>) -> Seq<char>
    decreases es.len(),
{
    if es.len() == 0 {
        seq![]
    } else {
        log_text(es.drop_last()) + entry_text(es.last())
    }
}

/// A well-made entry: its version reads as a version, and its body ends a line and holds no
/// heading `"## "`.
pub open spec fn entry_ok(e: (Seq<char>, Seq<char>)) -> bool {
    &&& version_tuple(e.0) is Ok
    &&& e.1.len() > 0
    &&& e.1.last() == '\n'
    &&& forall|j: int| !matches_at(e.1, "## "@, j)
}

/// The version of an entry, as numbers.
pub open spec fn entry_version(e: (Seq<char>, Seq<char>)) -> (u32, u32, u32) {
    version_tuple(e.0)->Ok_0
}

/// Every entry is well made.
pub open spec fn entries_ok(es: Seq<(Seq<char>, Seq<char>)>) -> bool {
    forall|i: int| 0 <= i < es.len() ==> entry_ok(#[trigger] es[i])
}

/// The entries are in version order.
pub open spec fn entries_sorted(es: Seq<(Seq<char>, Seq<char>)>) -> bool {
    forall|i: int, k: int|
        0 <= i < k < es.len() ==> version_le(
            entry_version(#[trigger] es[i]),
            entry_version(#[trigger] es[k]),
        )
}

/// The first position at or after `i` whose entry's version is later than `t`, or the number
/// of entries when there is none.
pub open spec fn first_later(es: Seq<(Seq<char>, Seq<char>)>, t: (u32, u32, u32), i: int) -> int
    decreases es.len() - i,
{
    if i < 0 || i >= es.len() {
        es.len() as int
    } else if version_lt(t, entry_version(es[i])) {
        i
    } else {
        first_later(es, t, i + 1)
    }
}

proof fn lemma_first_later(es: Seq<(Seq<char>, Seq<char>)>, t: (u32, u32, u32), i: int)
    requires
        0 <= i <= es.len(),
    ensures
        i <= first_later(es, t, i) <= es.len(),
        forall|k: int| i <= k < first_later(es, t, i) ==> !version_lt(t, entry_version(#[trigger] es[k])),
        first_later(es, t, i) < es.len() ==> version_lt(t, entry_version(es[first_later(es, t, i)])),
    decreases es.len() - i,
{
    if i < es.len() && !version_lt(t, entry_version(es[i])) {
        lemma_first_later(es, t, i + 1);
    }
}

/// The log of two runs of entries is the log of the first followed by that of the second.
pub proof fn lemma_log_text_add(a: Seq<(Seq<char>, Seq<char>)>, b: Seq<(Seq<char>, Seq<char>)>)
    ensures
        log_text(a + b) == log_text(a) + log_text(b),
    decreases b.len(),
{
    if b.len() == 0 {
        assert(a + b =~= a);
        assert(log_text(a) + log_text(b) =~= log_text(a));
    } else {
        lemma_log_text_add(a, b.drop_last());
        assert((a + b).drop_last() =~= a + b.drop_last());
        assert((a + b).last() == b.last());
        assert(log_text(a + b) =~= log_text(a) + log_text(b.drop_last()) + entry_text(b.last()));
    }
}

proof fn lemma_log_split(es: Seq<(Seq<char>, Seq<char>)>, i: int)
    requires
        0 <= i < es.len(),
    ensures
        log_text(es) == log_text(es.take(i)) + entry_text(es[i]) + log_text(es.skip(i + 1)),
        log_text(es.take(i + 1)) == log_text(es.take(i)) + entry_text(es[i]),
{
    assert(es.take(i + 1).drop_last() =~= es.take(i));
    assert(es.take(i + 1).last() == es[i]);
    lemma_log_text_add(es.take(i + 1), es.skip(i + 1));
    assert(es.take(i + 1) + es.skip(i + 1) =~= es);
}

proof fn lemma_log_prefix(es: Seq<(Seq<char>, Seq<char>)>, i: int)
    requires
        0 <= i <= es.len(),
    ensures
        log_text(es) == log_text(es.take(i)) + log_text(es.skip(i)),
{
    lemma_log_text_add(es.take(i), es.skip(i));
    assert(es.take(i) + es.skip(i) =~= es);
}

proof fn lemma_find_skip(s: Seq<char>, pat: Seq<char>, a: int, b: int)
    requires
        0 <= a <= b,
        forall|y: int| a <= y < b ==> !matches_at(s, pat, y),
    ensures
        find_str_from(s, pat, a) == find_str_from(s, pat, b),
    decreases b - a,
{
    if a < b {
        assert(!matches_at(s, pat, a));
        lemma_find_skip(s, pat, a + 1, b);
    }
}

proof fn lemma_scan_same(s: Seq<char>, nv: (u32, u32, u32), a: int, b: int)
    requires
        find_str_from(s, "## "@, a) == find_str_from(s, "## "@, b),
    ensures
        heading_scan(s, nv, a) == heading_scan(s, nv, b),
{
}

/// The characters of an entry: its heading `"## "`, its version, a line end, then its body.
proof fn lemma_entry_chars(e: (Seq<char>, Seq<char>), x: int)
    requires
        0 <= x < entry_text(e).len(),
    ensures
        x < 3 ==> entry_text(e)[x] == "## "@[x],
        3 <= x < 3 + e.0.len() ==> entry_text(e)[x] == e.0[x - 3],
        x == 3 + e.0.len() ==> entry_text(e)[x] == '\n',
        4 + e.0.len() <= x ==> entry_text(e)[x] == e.1[x - 4 - e.0.len()],
        entry_text(e).len() == 4 + e.0.len() + e.1.len(),
{
    reveal_strlit("## ");
    reveal_strlit("\n");
}

/// Inside a well-made entry that sits at `st` in `c`, no heading starts after the entry's
/// own.
proof fn lemma_no_heading_inside(c: Seq<char>, st: int, e: (Seq<char>, Seq<char>))
    requires
        entry_ok(e),
        0 <= st,
        st + entry_text(e).len() <= c.len(),
        c.subrange(st, st + entry_text(e).len()) == entry_text(e),
    ensures
        forall|y: int| st + 3 <= y < st + entry_text(e).len() ==> !matches_at(c, "## "@, y),
{
    reveal_strlit("## ");
    let v = e.0;
    let body = e.1;
    let n = entry_text(e).len() as int;
    lemma_version_chars(v);
    assert forall|y: int| st + 3 <= y < st + n implies !matches_at(c, "## "@, y) by {
        if matches_at(c, "## "@, y) {
            let x = y - st;
            assert(c.subrange(y, y + 3)[0] == '#');
            assert(c.subrange(y, y + 3)[1] == '#');
            assert(c[y] == '#');
            assert(c[y + 1] == '#');
            assert(c[y] == entry_text(e)[x]);
            lemma_entry_chars(e, x);
            if x < 3 + v.len() {
                assert(version_char(v[x - 3]));
            } else if x == 3 + v.len() {
            } else if x + 3 <= n {
                let j = x - 4 - v.len();
                assert(body.subrange(j, j + 3) =~= c.subrange(y, y + 3)) by {
                    assert forall|q: int| 0 <= q < 3 implies #[trigger] body.subrange(j, j + 3)[q]
                        == c.subrange(y, y + 3)[q] by {
                        lemma_entry_chars(e, x + q);
                        assert(c[y + q] == entry_text(e)[x + q]);
                    }
                }
                assert(matches_at(body, "## "@, j));
            } else if x == n - 1 {
                assert(body[body.len() - 1] == '\n');
            } else {
                lemma_entry_chars(e, x + 1);
                assert(c[y + 1] == entry_text(e)[x + 1]);
                assert(body[body.len() - 1] == '\n');
            }
        }
    }
}

/// A well-made entry that sits at `st` in `c` opens with a heading there, and that heading
/// carries the entry's version.
proof fn lemma_heading_at(c: Seq<char>, st: int, e: (Seq<char>, Seq<char>))
    requires
        entry_ok(e),
        0 <= st,
        st + entry_text(e).len() <= c.len(),
        c.subrange(st, st + entry_text(e).len()) == entry_text(e),
    ensures
        matches_at(c, "## "@, st),
        find_str_from(c, "## "@, st) == Some(st),
        heading_version_at(c, st) == version_tuple(e.0),
{
    reveal_strlit("## ");
    let v = e.0;
    let n = entry_text(e).len() as int;
    lemma_version_chars(v);
    assert forall|x: int| 0 <= x < n implies c[st + x] == entry_text(e)[x] by {
        assert(c.subrange(st, st + n)[x] == c[st + x]);
    }
    assert(c.subrange(st, st + 3) =~= "## "@) by {
        assert forall|q: int| 0 <= q < 3 implies c.subrange(st, st + 3)[q] == "## "@[q] by {
            lemma_entry_chars(e, q);
        }
    }
    // The heading line ends right after the version.
    let le = st + 3 + v.len() as int;
    lemma_entry_chars(e, 3 + v.len() as int);
    lemma_find_char_from_bounds(c, '\n', st);
    match find_char_from(c, '\n', st) {
        None => {},
        Some(r) => {
            if r < le {
                lemma_entry_chars(e, r - st);
                if r - st >= 3 {
                    assert(version_char(v[r - st - 3]));
                }
            }
        },
    }
    assert(line_end(c, st) == le);
    assert(c.subrange(st + 3, le) =~= v) by {
        assert forall|q: int| 0 <= q < v.len() implies c.subrange(st + 3, le)[q] == v[q] by {
            lemma_entry_chars(e, 3 + q);
        }
    }
    // A version has no whitespace at either end.
    if v.len() == 0 {
        assert(version_tuple(v) is Err);
    }
    assert(version_char(v[0]));
    assert(version_char(v[v.len() - 1]));
    assert(trim_start(v) == v);
    assert(trim_end(v) == v);
    assert(trim(v) == v);
}

/// Where entry `i` starts in the log of `es`.
pub open spec fn entry_start(es: Seq<(Seq<char>, Seq<char>)>, i: int) -> int {
    log_text(es.take(i)).len() as int
}

proof fn lemma_entry_in_log(es: Seq<(Seq<char>, Seq<char>)>, i: int)
    requires
        0 <= i < es.len(),
    ensures
        entry_start(es, i) + entry_text(es[i]).len() <= log_text(es).len(),
        log_text(es).subrange(entry_start(es, i), entry_start(es, i) + entry_text(es[i]).len())
            == entry_text(es[i]),
        entry_start(es, i + 1) == entry_start(es, i) + entry_text(es[i]).len(),
        0 <= entry_start(es, i),
{
    lemma_log_split(es, i);
    let c = log_text(es);
    let st = entry_start(es, i);
    let e = entry_text(es[i]);
    assert(c.subrange(st, st + e.len()) =~= e);
}

proof fn lemma_scan_log(es: Seq<(Seq<char>, Seq<char>)>, t: (u32, u32, u32), i: int, n: int)
    requires
        entries_ok(es),
        0 <= i <= n <= es.len(),
        forall|k: int| i <= k < n ==> !version_lt(t, entry_version(#[trigger] es[k])),
        n < es.len() ==> version_lt(t, entry_version(es[n])),
    ensures
        heading_scan(log_text(es), t, entry_start(es, i)) == Ok::<int, Seq<char>>(
            if n < es.len() {
                entry_start(es, n)
            } else {
                log_text(es).len() as int
            },
        ),
    decreases n - i,
{
    reveal_strlit("## ");
    let c = log_text(es);
    if i == es.len() {
        assert(es.take(i) =~= es);
        assert(find_str_from(c, "## "@, c.len() as int) is None);
    } else {
        lemma_entry_in_log(es, i);
        let st = entry_start(es, i);
        let e = es[i];
        assert(entry_ok(e));
        lemma_heading_at(c, st, e);
        if i < n {
            lemma_no_heading_inside(c, st, e);
            lemma_find_skip(c, "## "@, st + 3, entry_start(es, i + 1));
            lemma_scan_same(c, t, st + 3, entry_start(es, i + 1));
            lemma_scan_log(es, t, i + 1, n);
        }
    }
}

proof fn lemma_later_tail(es: Seq<(Seq<char>, Seq<char>)>, t: (u32, u32, u32), n: int)
    requires
        entries_sorted(es),
        0 <= n <= es.len(),
        n < es.len() ==> version_lt(t, entry_version(es[n])),
    ensures
        forall|i: int| n <= i < es.len() ==> version_lt(t, entry_version(#[trigger] es[i])),
{
    assert forall|i: int| n <= i < es.len() implies version_lt(t, entry_version(#[trigger] es[i])) by {
        if i > n {
            assert(version_le(entry_version(es[n]), entry_version(es[i])));
        }
    }
}

proof fn lemma_grown(
    es: Seq<(Seq<char>, Seq<char>)>,
    new: (Seq<char>, Seq<char>),
    n: int,
)
    requires
        entries_ok(es),
        entries_sorted(es),
        entry_ok(new),
        0 <= n <= es.len(),
        forall|i: int| 0 <= i < n ==> version_le(entry_version(#[trigger] es[i]), entry_version(new)),
        forall|i: int| n <= i < es.len() ==> version_lt(entry_version(new), entry_version(#[trigger] es[i])),
    ensures
        ({
            let grown = es.take(n).push(new) + es.skip(n);
            &&& log_text(grown) == log_text(es.take(n)) + entry_text(new) + log_text(es.skip(n))
            &&& entries_ok(grown)
            &&& entries_sorted(grown)
        }),
{
    let head = es.take(n);
    let tail = es.skip(n);
    let grown = head.push(new) + tail;
    let t = entry_version(new);
    assert(head.push(new).drop_last() =~= head);
    lemma_log_text_add(head.push(new), tail);
    assert forall|i: int| 0 <= i < grown.len() implies entry_ok(#[trigger] grown[i]) by {
        if i < n {
            assert(grown[i] == es[i]);
        } else if i > n {
            assert(grown[i] == es[i - 1]);
        }
    }
    assert forall|i: int, k: int| 0 <= i < k < grown.len() implies version_le(
        entry_version(#[trigger] grown[i]),
        entry_version(#[trigger] grown[k]),
    ) by {
        if k < n {
            assert(grown[i] == es[i] && grown[k] == es[k]);
        } else if k == n {
            assert(grown[i] == es[i]);
        } else if i < n {
            assert(grown[i] == es[i] && grown[k] == es[k - 1]);
            assert(version_lt(t, entry_version(es[k - 1])));
        } else if i == n {
            assert(grown[k] == es[k - 1]);
            assert(version_lt(t, entry_version(es[k - 1])));
        } else {
            assert(grown[i] == es[i - 1] && grown[k] == es[k - 1]);
        }
    }
}

proof fn lemma_entry_log_position(es: Seq<(Seq<char>, Seq<char>)>, version: Seq<char>)
    requires
        entries_ok(es),
        version_tuple(version) is Ok,
    ensures
        ({
            let n = first_later(es, version_tuple(version)->Ok_0, 0);
            &&& insert_position(log_text(es), version) == Ok::<nat, Seq<char>>(
                byte_len(log_text(es.take(n))),
            )
            &&& log_text(es) == log_text(es.take(n)) + log_text(es.skip(n))
        }),
{
    let t = version_tuple(version)->Ok_0;
    let n = first_later(es, t, 0);
    let c = log_text(es);
    lemma_first_later(es, t, 0);
    lemma_scan_log(es, t, 0, n);
    assert(es.take(0) =~= Seq::<(Seq<char>, Seq<char>)>::empty());
    assert(entry_start(es, 0) == 0);
    lemma_log_prefix(es, n);
    if n == es.len() {
        assert(es.take(n) =~= es);
    }
    assert(c.take(entry_start(es, n)) =~= log_text(es.take(n)));
}

/// Where a new entry goes in a log made of well-made entries in version order: the position
/// that `find_insert_position` gives is the end of the last entry whose version is not later
/// than the new one (every entry before it is not later, every entry after it is later), so
/// putting the new entry there gives again a log of well-made entries in version order.
pub proof fn lemma_entry_log_insert(
    es: Seq<(Seq<char>, Seq<char>)>,
    version: Seq<char>,
    body: Seq<char>,
)
    requires
        entries_ok(es),
        entries_sorted(es),
        entry_ok((version, body)),
    ensures
        ({
            let t = entry_version((version, body));
            let n = first_later(es, t, 0);
            let head = es.take(n);
            let tail = es.skip(n);
            let grown = head.push((version, body)) + tail;
            &&& 0 <= n <= es.len()
            &&& insert_position(log_text(es), version) == Ok::<nat, Seq<char>>(
                byte_len(log_text(head)),
            )
            &&& log_text(es) == log_text(head) + log_text(tail)
            &&& forall|i: int| 0 <= i < n ==> version_le(entry_version(#[trigger] es[i]), t)
            &&& forall|i: int| n <= i < es.len() ==> version_lt(t, entry_version(#[trigger] es[i]))
            &&& log_text(grown) == log_text(head) + entry_text((version, body)) + log_text(tail)
            &&& entries_ok(grown)
            &&& entries_sorted(grown)
        }),
{
    let t = entry_version((version, body));
    let n = first_later(es, t, 0);
    lemma_first_later(es, t, 0);
    lemma_entry_log_position(es, version);
    lemma_later_tail(es, t, n);
    lemma_grown(es, (version, body), n);
}

/// The body of the log entry that `format_commit_metadata` makes: what follows its heading.
pub open spec fn formatted_body(metadata: CommitMetadata, version: Seq<char>) -> Seq<char> {
    pub_helper::log_entry_text(metadata, version).skip(entry_heading(version).len() as int)
}

/// The log entry that `format_commit_metadata` makes is the heading of its version followed
/// by a body that ends a line; it is a well-made entry whenever its version reads as a
/// version and its body holds no `"## "`. The same holds of the entry that the other
/// formatter (`string_formating::helper::format_commit_metadata`) makes.
pub proof fn lemma_formatted_entry(metadata: CommitMetadata, version: Seq<char>)
    ensures
        pub_helper::log_entry_text(metadata, version) == entry_text(
            (version, formatted_body(metadata, version)),
        ),
        formatted_body(metadata, version).len() > 0,
        formatted_body(metadata, version).last() == '\n',
        ({
            let a = helper::log_entry_text(metadata, version);
            let b = a.skip(entry_heading(version).len() as int);
            a == entry_text((version, b)) && b.len() > 0 && b.last() == '\n'
        }),
{
    reveal_strlit("## ");
    reveal_strlit("\n");
    reveal_strlit("\n- **Hash (full):** ");
    reveal_strlit("\n\n---\n\n\n");
    let h = entry_heading(version);
    let a = helper::log_entry_text(metadata, version);
    let b = pub_helper::log_entry_text(metadata, version);
    assert(a =~= h + a.skip(h.len() as int));
    assert(b =~= h + b.skip(h.len() as int));
    assert(a.last() == '\n');
    assert(b.last() == '\n');
    assert(a.skip(h.len() as int).last() == a.last());
    assert(b.skip(h.len() as int).last() == b.last());
}

/// `s` holds no heading marker `"## "`.
pub open spec fn no_heading(s: Seq<char>) -> bool {
    forall|j: int| !matches_at(s, "## "@, j)
}

proof fn lemma_no_hash(s: Seq<char>)
    requires
        forall|i: int| 0 <= i < s.len() ==> s[i] != '#',
    ensures
        no_heading(s),
{
    reveal_strlit("## ");
    assert forall|j: int| !matches_at(s, "## "@, j) by {
        if matches_at(s, "## "@, j) {
            assert(s.subrange(j, j + 3)[0] == s[j]);
        }
    }
}

/// Two texts without a heading marker make one without it, unless the first ends in `'#'`
/// and the second starts with `'#'` or `' '`.
proof fn lemma_no_heading_add(a: Seq<char>, b: Seq<char>)
    requires
        no_heading(a),
        no_heading(b),
        a.len() == 0 || b.len() == 0 || a.last() != '#' || (b[0] != '#' && b[0] != ' '),
    ensures
        no_heading(a + b),
{
    reveal_strlit("## ");
    let s = a + b;
    assert forall|j: int| !matches_at(s, "## "@, j) by {
        if matches_at(s, "## "@, j) {
            assert(s[j] == s.subrange(j, j + 3)[0]);
            assert(s[j + 1] == s.subrange(j, j + 3)[1]);
            assert(s[j + 2] == s.subrange(j, j + 3)[2]);
            if j + 3 <= a.len() {
                assert(a.subrange(j, j + 3) =~= s.subrange(j, j + 3));
                assert(matches_at(a, "## "@, j));
            } else if j >= a.len() {
                assert(b.subrange(j - a.len(), j - a.len() + 3) =~= s.subrange(j, j + 3));
                assert(matches_at(b, "## "@, j - a.len()));
            } else if j == a.len() - 1 {
                assert(s[j] == a.last());
                assert(s[j + 1] == b[0]);
            } else {
                assert(s[j + 1] == a.last());
                assert(s[j + 2] == b[0]);
            }
        }
    }
}

/// A field of a log entry, a text of the layout around it, and the rest: the layout text
/// holds no `'#'`, starts with neither `'#'` nor `' '`, and does not end in `'#'`.
proof fn lemma_layout_piece(acc: Seq<char>, layout: Seq<char>, field: Seq<char>)
    requires
        no_heading(acc),
        no_heading(field),
        forall|i: int| 0 <= i < layout.len() ==> layout[i] != '#',
        layout.len() > 0,
        layout[0] != ' ',
    ensures
        no_heading(acc + layout + field),
{
    lemma_no_hash(layout);
    lemma_no_heading_add(acc, layout);
    assert((acc + layout).last() == layout.last());
    lemma_no_heading_add(acc + layout, field);
}

/// The body of a formatted entry, piece by piece.
pub open spec fn formatted_body_text(m: CommitMetadata) -> Seq<char> {
    "- **Hash (full):** "@ + m.commit_hash@ + "\n- **Hash (short):** "@ + m.abbreviated_hash@
        + "\n- **Author:** "@ + m.author_name@ + "\n- **Created At:** "@ + m.author_date@
        + "\n- **Summary:** "@ + m.subject@ + "\n\n**Message:**\n"@ + m.body@
        + "\n\n---\n\n\n"@
}

/// The fields of the commit metadata hold no heading marker `"## "`.
pub open spec fn metadata_without_headings(m: CommitMetadata) -> bool {
    &&& no_heading(m.commit_hash@)
    &&& no_heading(m.abbreviated_hash@)
    &&& no_heading(m.author_name@)
    &&& no_heading(m.author_date@)
    &&& no_heading(m.subject@)
    &&& no_heading(m.body@)
}

/// An entry that `format_commit_metadata` makes of a version that reads as a version and of
/// metadata whose fields hold no `"## "` is a well-made entry, so the insertion-order law
/// (`lemma_entry_log_insert`) applies to the logs that the library writes.
pub proof fn lemma_formatted_entry_ok(metadata: CommitMetadata, version: Seq<char>)
    requires
        version_tuple(version) is Ok,
        metadata_without_headings(metadata),
    ensures
        formatted_body(metadata, version) == formatted_body_text(metadata),
        entry_ok((version, formatted_body(metadata, version))),
{
    reveal_strlit("## ");
    reveal_strlit("\n");
    reveal_strlit("\n- **Hash (full):** ");
    reveal_strlit("- **Hash (full):** ");
    reveal_strlit("\n- **Hash (short):** ");
    reveal_strlit("\n- **Author:** ");
    reveal_strlit("\n- **Created At:** ");
    reveal_strlit("\n- **Summary:** ");
    reveal_strlit("\n\n**Message:**\n");
    reveal_strlit("\n\n---\n\n\n");
    let m = metadata;
    let h = entry_heading(version);
    let full = pub_helper::log_entry_text(m, version);
    let body = formatted_body_text(m);
    assert(full =~= h + body);
    assert(full.skip(h.len() as int) =~= body);
    lemma_formatted_entry(m, version);
    // The body, piece by piece.
    let p0 = "- **Hash (full):** "@;
    lemma_no_hash(p0);
    assert(p0.last() == ' ');
    lemma_no_heading_add(p0, m.commit_hash@);
    let p1 = p0 + m.commit_hash@;
    lemma_layout_piece(p1, "\n- **Hash (short):** "@, m.abbreviated_hash@);
    let p2 = p1 + "\n- **Hash (short):** "@ + m.abbreviated_hash@;
    lemma_layout_piece(p2, "\n- **Author:** "@, m.author_name@);
    let p3 = p2 + "\n- **Author:** "@ + m.author_name@;
    lemma_layout_piece(p3, "\n- **Created At:** "@, m.author_date@);
    let p4 = p3 + "\n- **Created At:** "@ + m.author_date@;
    lemma_layout_piece(p4, "\n- **Summary:** "@, m.subject@);
    let p5 = p4 + "\n- **Summary:** "@ + m.subject@;
    lemma_layout_piece(p5, "\n\n**Message:**\n"@, m.body@);
    let p6 = p5 + "\n\n**Message:**\n"@ + m.body@;
    lemma_no_hash(Seq::<char>::empty());
    lemma_layout_piece(p6, "\n\n---\n\n\n"@, Seq::<char>::empty());
    assert(p6 + "\n\n---\n\n\n"@ + Seq::<char>::empty() =~= body);
}

/// The entries that `format_commit_metadata` makes of `ms[i]` at version `vs[i]`.
pub open spec fn formatted_entries(ms: Seq<CommitMetadata>, vs: Seq<Seq<char>>) -> Seq<
    (Seq<char>, Seq<char>),
> {
    Seq::new(vs.len(), |i: int| (vs[i], formatted_body(ms[i], vs[i])))
}

/// The chronological order of a log written by the library is kept: in a log made of the
/// entries that `format_commit_metadata` wrote for versions in version order (their fields
/// holding no `"## "`), the entry of a new version goes, at the position that
/// `find_insert_position` gives, after every entry whose version is not later and before
/// every entry whose version is later, and the log it gives is again such a log.
pub proof fn lemma_formatted_log_insert(
    ms: Seq<CommitMetadata>,
    vs: Seq<Seq<char>>,
    m: CommitMetadata,
    v: Seq<char>,
)
    requires
        ms.len() == vs.len(),
        forall|i: int| 0 <= i < vs.len() ==> version_tuple(#[trigger] vs[i]) is Ok,
        forall|i: int| 0 <= i < ms.len() ==> metadata_without_headings(#[trigger] ms[i]),
        forall|i: int, k: int|
            0 <= i < k < vs.len() ==> version_le(
                version_tuple(#[trigger] vs[i])->Ok_0,
                version_tuple(#[trigger] vs[k])->Ok_0,
            ),
        version_tuple(v) is Ok,
        metadata_without_headings(m),
    ensures
        ({
            let es = formatted_entries(ms, vs);
            let new = (v, formatted_body(m, v));
            let t = version_tuple(v)->Ok_0;
            let n = first_later(es, t, 0);
            let head = es.take(n);
            let tail = es.skip(n);
            let grown = head.push(new) + tail;
            &&& forall|i: int| 0 <= i < es.len() ==> entry_text(#[trigger] es[i])
                == pub_helper::log_entry_text(ms[i], vs[i])
            &&& entry_text(new) == pub_helper::log_entry_text(m, v)
            &&& 0 <= n <= es.len()
            &&& insert_position(log_text(es), v) == Ok::<nat, Seq<char>>(
                byte_len(log_text(head)),
            )
            &&& log_text(es) == log_text(head) + log_text(tail)
            &&& forall|i: int| 0 <= i < n ==> version_le(version_tuple(#[trigger] vs[i])->Ok_0, t)
            &&& forall|i: int| n <= i < es.len() ==> version_lt(t, version_tuple(#[trigger] vs[i])->Ok_0)
            &&& log_text(grown) == log_text(head) + entry_text(new) + log_text(tail)
            &&& entries_ok(grown)
            &&& entries_sorted(grown)
        }),
{
    let es = formatted_entries(ms, vs);
    let new = (v, formatted_body(m, v));
    assert forall|i: int| 0 <= i < es.len() implies entry_ok(#[trigger] es[i])
        && entry_text(es[i]) == pub_helper::log_entry_text(ms[i], vs[i]) by {
        lemma_formatted_entry_ok(ms[i], vs[i]);
        lemma_formatted_entry(ms[i], vs[i]);
    }
    assert forall|i: int, k: int| 0 <= i < k < es.len() implies version_le(
        entry_version(#[trigger] es[i]),
        entry_version(#[trigger] es[k]),
    ) by {
        assert(es[i].0 == vs[i] && es[k].0 == vs[k]);
    }
    lemma_formatted_entry_ok(m, v);
    lemma_formatted_entry(m, v);
    lemma_entry_log_insert(es, v, formatted_body(m, v));
    let t = version_tuple(v)->Ok_0;
    let n = first_later(es, t, 0);
    assert forall|i: int| 0 <= i < n implies version_le(version_tuple(#[trigger] vs[i])->Ok_0, t) by {
        assert(es[i].0 == vs[i]);
    }
    assert forall|i: int| n <= i < es.len() implies version_lt(t, version_tuple(#[trigger] vs[i])->Ok_0) by {
        assert(es[i].0 == vs[i]);
    }
}

} // verus!
