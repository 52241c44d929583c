//! What Git printed: the outcome of a command, the metadata of a commit, and the committed
//! files that are not hidden.
use vstd::prelude::*;

use crate::config::{CommitMetadata, NO_COMMIT_METADATA};
use crate::text::{
    chars_of, concat2, first_line, lemma_lines_single, lemma_split_join, lemma_split_plain, lines,
    split_char, split_lines, split_on, string_of, views,
};

verus! {

/// What a finished Git command left: whether it succeeded, its standard output and error
/// decoded strictly as UTF-8 (or the decoding error's text), and its error output decoded
/// leniently.
pub struct GitOutput {
    pub success: bool,
    pub stdout: Result<String, String>,
    pub stderr: Result<String, String>,
    pub stderr_lossy: String,
}

/// The text of a command's run: its output when it succeeded, otherwise `prefix` followed by
/// its error output; a decoding error is passed on as it is.
pub open spec fn command_text_of(out: GitOutput, prefix: Seq<char>) -> Result<
    Seq<char>,
    Seq<char>,
> {
    if out.success {
        match out.stdout {
            Ok(t) => Ok(t@),
            Err(d) => Err(d@),
        }
    } else {
        match out.stderr {
            Ok(t) => Err(prefix + t@),
            Err(d) => Err(d@),
        }
    }
}

/// The text of a command's run (see `command_text_of`).
pub fn command_text(out: GitOutput, prefix: &str) -> (r: Result<String, String>)
    ensures
        crate::text::result_view(r) == command_text_of(out, prefix@),
{
    if out.success {
        out.stdout
    } else {
        match out.stderr {
            Ok(t) => Err(concat2(prefix, t.as_str())),
            Err(d) => Err(d),
        }
    }
}

// ---------------------------------------------------------------------------------------------
// Commit metadata
// ---------------------------------------------------------------------------------------------

/// The fields of a commit from `git log -1 --format=%H%x1f%h%x1f%an%x1f%aI%x1f%s%x1f%b`: the
/// first six pieces of its first line, split at `'\x1f'`.
pub open spec fn commit_fields(stdout: Seq<char>) -> Result<Seq<Seq<char>>, Seq<char>> {
    if lines(stdout).len() == 0 {
        Err(NO_COMMIT_METADATA@)
    } else {
        let parts = split_char(lines(stdout)[0], '\u{1f}');
        if parts.len() < 6 {
            Err("Malformed git log output"@)
        } else {
            Ok(parts.take(6))
        }
    }
}

/// The fields of a commit record, in their order.
pub open spec fn metadata_fields(m: CommitMetadata) -> Seq<Seq<char>> {
    seq![
        m.commit_hash@,
        m.abbreviated_hash@,
        m.author_name@,
        m.author_date@,
        m.subject@,
        m.body@,
    ]
}

/// Reads a commit's metadata out of what `git log -1 --format=%H%x1f%h%x1f%an%x1f%aI%x1f%s%x1f%b`
/// printed.
pub fn parse_commit_metadata(stdout: &str) -> (r: Result<CommitMetadata, String>)
    ensures
        match commit_fields(stdout@) {
            Ok(fields) => r matches Ok(m) && metadata_fields(m) == fields,
            Err(msg) => r matches Err(e) && e@ == msg,
        },
{
    let line = match first_line(stdout) {
        Some(l) => l,
        None => {
            return Err(String::from_str(NO_COMMIT_METADATA));
        },
    };
    let v = chars_of(line.as_str());
    let parts = split_on(&v, '\u{1f}');
    if parts.len() < 6 {
        return Err(String::from_str("Malformed git log output"));
    }
    let m = CommitMetadata {
        commit_hash: string_of(&parts[0]),
        abbreviated_hash: string_of(&parts[1]),
        author_name: string_of(&parts[2]),
        author_date: string_of(&parts[3]),
        subject: string_of(&parts[4]),
        body: string_of(&parts[5]),
    };
    assert(metadata_fields(m) =~= split_char(v@, '\u{1f}').take(6));
    Ok(m)
}

/// `s` does not hold `c`.
pub open spec fn lacks(s: Seq<char>, c: char) -> bool {
    forall|i: int| 0 <= i < s.len() ==> s[i] != c
}

proof fn lemma_lacks_add(a: Seq<char>, b: Seq<char>, c: char)
    requires
        lacks(a, c),
        lacks(b, c),
    ensures
        lacks(a + b, c),
{
    assert forall|i: int| 0 <= i < (a + b).len() implies (a + b)[i] != c by {
        if i >= a.len() {
            assert((a + b)[i] == b[i - a.len()]);
        }
    }
}

/// The line that `git log -1 --format=%H%x1f%h%x1f%an%x1f%aI%x1f%s%x1f%b` prints for six
/// fields: the fields joined by `'\x1f'`.
pub open spec fn joined_fields(f: Seq<Seq<char>>) -> Seq<char> {
    f[0] + seq!['\u{1f}'] + f[1] + seq!['\u{1f}'] + f[2] + seq!['\u{1f}'] + f[3] + seq!['\u{1f}']
        + f[4] + seq!['\u{1f}'] + f[5]
}

/// Reading a commit back: whatever six fields were printed (each without `'\x1f'` or a line
/// break, empty ones included, such as the body of a commit without a detail message),
/// with or without a final line break, the commit's fields are exactly those six.
pub proof fn lemma_commit_fields_read_back(f: Seq<Seq<char>>)
    requires
        f.len() == 6,
        forall|k: int| 0 <= k < 6 ==> lacks(#[trigger] f[k], '\u{1f}') && lacks(f[k], '\n'),
        f[5].len() == 0 || f[5].last() != '\r',
    ensures
        commit_fields(joined_fields(f)) == Ok::<Seq<Seq<char>>, Seq<char>>(f),
        commit_fields(joined_fields(f) + seq!['\n']) == Ok::<Seq<Seq<char>>, Seq<char>>(f),
{
    let us = seq!['\u{1f}'];
    assert(lacks(f[0], '\u{1f}') && lacks(f[0], '\n'));
    assert(lacks(f[1], '\u{1f}') && lacks(f[1], '\n'));
    assert(lacks(f[2], '\u{1f}') && lacks(f[2], '\n'));
    assert(lacks(f[3], '\u{1f}') && lacks(f[3], '\n'));
    assert(lacks(f[4], '\u{1f}') && lacks(f[4], '\n'));
    assert(lacks(f[5], '\u{1f}') && lacks(f[5], '\n'));
    lemma_split_plain(f[0], '\u{1f}');
    lemma_split_plain(f[1], '\u{1f}');
    lemma_split_plain(f[2], '\u{1f}');
    lemma_split_plain(f[3], '\u{1f}');
    lemma_split_plain(f[4], '\u{1f}');
    lemma_split_plain(f[5], '\u{1f}');
    let x1 = f[0] + us + f[1];
    let x2 = x1 + us + f[2];
    let x3 = x2 + us + f[3];
    let x4 = x3 + us + f[4];
    let x5 = x4 + us + f[5];
    lemma_split_join(f[0], f[1], '\u{1f}');
    lemma_split_join(x1, f[2], '\u{1f}');
    lemma_split_join(x2, f[3], '\u{1f}');
    lemma_split_join(x3, f[4], '\u{1f}');
    lemma_split_join(x4, f[5], '\u{1f}');
    assert(split_char(x5, '\u{1f}') =~= f);
    assert(x5 == joined_fields(f));
    // The line has no line break.
    assert(lacks(us, '\n'));
    lemma_lacks_add(f[0], us, '\n');
    lemma_lacks_add(f[0] + us, f[1], '\n');
    lemma_lacks_add(x1, us, '\n');
    lemma_lacks_add(x1 + us, f[2], '\n');
    lemma_lacks_add(x2, us, '\n');
    lemma_lacks_add(x2 + us, f[3], '\n');
    lemma_lacks_add(x3, us, '\n');
    lemma_lacks_add(x3 + us, f[4], '\n');
    lemma_lacks_add(x4, us, '\n');
    lemma_lacks_add(x4 + us, f[5], '\n');
    assert(x5.len() >= 5);
    lemma_lines_single(x5);
    let y = x5 + seq!['\n'];
    assert forall|k: int| 0 <= k < y.len() - 1 implies y[k] != '\n' by {
        assert(y[k] == x5[k]);
    }
    lemma_lines_single(y);
    assert(y.drop_last() =~= x5);
    if f[5].len() > 0 {
        assert(x5.last() == f[5].last());
    } else {
        assert(x5.last() == '\u{1f}');
    }
    assert(split_char(x5, '\u{1f}').take(6) =~= f);
}

// ---------------------------------------------------------------------------------------------
// Committed files
// ---------------------------------------------------------------------------------------------

/// A path component that is hidden: a name of two or more characters that starts with `'.'`
/// (`".."` included).
pub open spec fn is_hidden_segment(seg: Seq<char>) -> bool {
    seg.len() >= 2 && seg[0] == '.'
}

/// Some component of the path starts with `'.'`, as `Path::components` splits it: a leading
/// `"."` counts, a `"."` further on is not a component, and empty pieces between slashes are
/// not components either.
pub open spec fn has_hidden_component(path: Seq<char>) -> bool {
    let segs = split_char(path, '/');
    segs[0] == seq!['.'] || exists|k: int| 0 <= k < segs.len() && is_hidden_segment(#[trigger] segs[k])
}

/// Whether some component of the path starts with `'.'`.
pub fn hidden_path(path: &Vec<char>) -> (b: bool)
    ensures
        b == has_hidden_component(path@),
{
    let segs = split_on(path, '/');
    let ghost ss = split_char(path@, '/');
    assert(segs@[0]@ == ss[0]);
    if segs[0].len() == 1 && segs[0][0] == '.' {
        assert(segs@[0]@ =~= seq!['.']);
        return true;
    }
    assert(ss[0] != seq!['.']) by {
        if ss[0] == seq!['.'] {
            assert(segs@[0]@.len() == 1 && segs@[0]@[0] == '.');
        }
    }
    let mut k: usize = 0;
    while k < segs.len()
        invariant
            k <= segs@.len(),
            segs@.len() == ss.len(),
            ss == split_char(path@, '/'),
            forall|m: int| 0 <= m < segs@.len() ==> (#[trigger] segs@[m])@ == ss[m],
            forall|m: int| 0 <= m < k ==> !is_hidden_segment(#[trigger] ss[m]),
        decreases segs@.len() - k,
    {
        assert(segs@[k as int]@ == ss[k as int]);
        if segs[k].len() >= 2 && segs[k][0] == '.' {
            assert(is_hidden_segment(ss[k as int]));
            return true;
        }
        k = k + 1;
    }
    false
}

/// The lines of `ls` that name no hidden component, in order.
pub open spec fn visible_files(ls: Seq<Seq<char>>) -> Seq<Seq<char>>
    decreases ls.len(),
{
    if ls.len() == 0 {
        seq![]
    } else if has_hidden_component(ls.last()) {
        visible_files(ls.drop_last())
    } else {
        visible_files(ls.drop_last()).push(ls.last())
    }
}

/// A hidden name anywhere in a path hides the path: a component of two or more characters
/// that starts with `'.'` makes the path hidden whether it stands alone, last (a hidden file
/// inside a folder), first, or between other components.
pub proof fn lemma_hidden_component_hides(a: Seq<char>, c: Seq<char>, b: Seq<char>)
    requires
        c.len() >= 2,
        c[0] == '.',
        lacks(c, '/'),
    ensures
        has_hidden_component(c),
        has_hidden_component(a + seq!['/'] + c),
        has_hidden_component(c + seq!['/'] + b),
        has_hidden_component(a + seq!['/'] + c + seq!['/'] + b),
{
    let sl = seq!['/'];
    lemma_split_plain(c, '/');
    assert(is_hidden_segment(c));
    let s0 = split_char(c, '/');
    assert(is_hidden_segment(s0[0]));
    lemma_split_join(a, c, '/');
    let s1 = split_char(a + sl + c, '/');
    let n = split_char(a, '/').len() as int;
    assert(s1[n] == c);
    assert(is_hidden_segment(s1[n]));
    lemma_split_join(c, b, '/');
    let s2 = split_char(c + sl + b, '/');
    assert(s2[0] == c);
    assert(is_hidden_segment(s2[0]));
    lemma_split_join(a + sl + c, b, '/');
    let s3 = split_char(a + sl + c + sl + b, '/');
    assert(s3[n] == c);
    assert(is_hidden_segment(s3[n]));
}

/// The committed files kept are exactly the listed ones without a hidden component: no kept
/// file has one, and every listed file without one is kept.
pub proof fn lemma_visible_files(ls: Seq<Seq<char>>)
    ensures
        forall|k: int| 0 <= k < visible_files(ls).len() ==> !has_hidden_component(
            #[trigger] visible_files(ls)[k],
        ),
        forall|k: int| 0 <= k < ls.len() && !has_hidden_component(ls[k]) ==> visible_files(
            ls,
        ).contains(#[trigger] ls[k]),
    decreases ls.len(),
{
    if ls.len() > 0 {
        let rest = ls.drop_last();
        lemma_visible_files(rest);
        let v = visible_files(ls);
        let vr = visible_files(rest);
        assert forall|k: int| 0 <= k < v.len() implies !has_hidden_component(#[trigger] v[k]) by {
            if k < vr.len() {
                assert(v[k] == vr[k]);
            }
        }
        assert forall|k: int| 0 <= k < ls.len() && !has_hidden_component(ls[k]) implies v.contains(
            #[trigger] ls[k],
        ) by {
            if k < rest.len() {
                assert(rest[k] == ls[k]);
                assert(vr.contains(rest[k]));
                let j = choose|j: int| 0 <= j < vr.len() && vr[j] == rest[k];
                assert(v[j] == vr[j]);
            } else {
                assert(v[v.len() - 1] == ls.last());
            }
        }
    }
}

/// The committed files that `git ls-files` listed, leaving out those with a hidden component.
pub fn filter_committed_files(stdout: &str) -> (files: Vec<String>)
    ensures
        views(files@) == visible_files(lines(stdout@)),
{
    let all = split_lines(stdout);
    let ghost ls = lines(stdout@);
    let mut files: Vec<String> = Vec::new();
    let mut i: usize = 0;
    while i < all.len()
        invariant
            i <= all@.len(),
            views(all@) == ls,
            views(files@) == visible_files(ls.take(i as int)),
        decreases all@.len() - i,
    {
        assert(ls.take(i + 1).drop_last() =~= ls.take(i as int));
        assert(views(all@)[i as int] == all@[i as int]@);
        let v = chars_of(all[i].as_str());
        let ghost before = views(files@);
        if !hidden_path(&v) {
            files.push(all[i].clone());
            assert(views(files@) =~= before.push(ls[i as int]));
        }
        i = i + 1;
    }
    assert(ls.take(all@.len() as int) =~= ls);
    files
}

} // verus!
