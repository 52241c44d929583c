//! Character-level text utilities shared by the parsers and formatters of the crate.
//!
//! Strings are modelled by their `Seq<char>` views. The searching and splitting
//! specifications below are written as left-to-right scans from a position, which is how
//! the corresponding `str` methods of the standard library are documented to behave.
use vstd::prelude::*;
use vstd::utf8::*;

verus! {

/// `String::push` appends one character.
pub assume_specification[ String::push ](s: &mut String, c: char)
    ensures
        final(s)@ == old(s)@.push(c),
;

// ---------------------------------------------------------------------------------------------
// Characters
// ---------------------------------------------------------------------------------------------

/// An ASCII decimal digit.
pub open spec fn is_digit(c: char) -> bool {
    '0' <= c <= '9'
}

/// Value of an ASCII decimal digit.
pub open spec fn digit_value(c: char) -> nat {
    ((c as u32) - 48) as nat
}

/// The ASCII digit for a value below ten.
pub open spec fn digit_char(d: nat) -> char {
    if d == 0 {
        '0'
    } else if d == 1 {
        '1'
    } else if d == 2 {
        '2'
    } else if d == 3 {
        '3'
    } else if d == 4 {
        '4'
    } else if d == 5 {
        '5'
    } else if d == 6 {
        '6'
    } else if d == 7 {
        '7'
    } else if d == 8 {
        '8'
    } else {
        '9'
    }
}

/// Unicode `White_Space`, the property that `char::is_whitespace` tests.
pub open spec fn is_ws(c: char) -> bool {
    ||| '\u{9}' <= c <= '\u{d}'
    ||| c == ' '
    ||| c == '\u{85}'
    ||| c == '\u{a0}'
    ||| c == '\u{1680}'
    ||| '\u{2000}' <= c <= '\u{200a}'
    ||| c == '\u{2028}'
    ||| c == '\u{2029}'
    ||| c == '\u{202f}'
    ||| c == '\u{205f}'
    ||| c == '\u{3000}'
}

pub fn is_whitespace(c: char) -> (b: bool)
    ensures
        b == is_ws(c),
{
    ('\u{9}' <= c && c <= '\u{d}') || c == ' ' || c == '\u{85}' || c == '\u{a0}' || c == '\u{1680}'
        || ('\u{2000}' <= c && c <= '\u{200a}') || c == '\u{2028}' || c == '\u{2029}' || c
        == '\u{202f}' || c == '\u{205f}' || c == '\u{3000}'
}

pub fn digit_to_char(d: u64) -> (c: char)
    requires
        d < 10,
    ensures
        c == digit_char(d as nat),
        is_digit(c),
        digit_value(c) == d,
{
    if d == 0 {
        '0'
    } else if d == 1 {
        '1'
    } else if d == 2 {
        '2'
    } else if d == 3 {
        '3'
    } else if d == 4 {
        '4'
    } else if d == 5 {
        '5'
    } else if d == 6 {
        '6'
    } else if d == 7 {
        '7'
    } else if d == 8 {
        '8'
    } else {
        '9'
    }
}

// ---------------------------------------------------------------------------------------------
// Conversions between `str`, `String` and `Vec<char>`
// ---------------------------------------------------------------------------------------------

/// The characters of a string slice, in order.
pub fn chars_of(s: &str) -> (v: Vec<char>)
    ensures
        v@ == s@,
{
    let mut v: Vec<char> = Vec::new();
    for c in it: s.chars()
        invariant
            v@ == it.seq().take(it.index() as int),
    {
        v.push(c);
    }
    v
}

/// A string made of the characters `v[lo..hi]`.
pub fn string_of_range(v: &Vec<char>, lo: usize, hi: usize) -> (s: String)
    requires
        lo <= hi <= v@.len(),
    ensures
        s@ == v@.subrange(lo as int, hi as int),
{
    let mut s = String::new();
    let mut i: usize = lo;
    while i < hi
        invariant
            lo <= i <= hi <= v@.len(),
            s@ == v@.subrange(lo as int, i as int),
        decreases hi - i,
    {
        s.push(v[i]);
        i = i + 1;
        assert(s@ =~= v@.subrange(lo as int, i as int));
    }
    s
}

/// A string made of all the characters of `v`.
pub fn string_of(v: &Vec<char>) -> (s: String)
    ensures
        s@ == v@,
{
    let s = string_of_range(v, 0, v.len());
    assert(v@.subrange(0, v@.len() as int) =~= v@);
    s
}

/// A copy of `v[lo..hi]`.
pub fn sub_vec(v: &Vec<char>, lo: usize, hi: usize) -> (r: Vec<char>)
    requires
        lo <= hi <= v@.len(),
    ensures
        r@ == v@.subrange(lo as int, hi as int),
{
    let mut r: Vec<char> = Vec::new();
    let mut i: usize = lo;
    while i < hi
        invariant
            lo <= i <= hi <= v@.len(),
            r@ == v@.subrange(lo as int, i as int),
        decreases hi - i,
    {
        r.push(v[i]);
        i = i + 1;
        assert(r@ =~= v@.subrange(lo as int, i as int));
    }
    r
}

/// `a` followed by `b`.
pub fn concat2(a: &str, b: &str) -> (s: String)
    ensures
        s@ == a@ + b@,
{
    let mut s = String::from_str(a);
    s.append(b);
    s
}

/// `a`, `b` and `c` one after the other.
pub fn concat3(a: &str, b: &str, c: &str) -> (s: String)
    ensures
        s@ == a@ + b@ + c@,
{
    let mut s = String::from_str(a);
    s.append(b);
    s.append(c);
    s
}

// ---------------------------------------------------------------------------------------------
// Searching
// ---------------------------------------------------------------------------------------------

/// The first position at or after `i` that holds `c`.
pub open spec fn find_char_from(s: Seq<char>, c: char, i: int) -> Option<int>
    decreases s.len() - i,
{
    if i < 0 || i >= s.len() {
        None
    } else if s[i] == c {
        Some(i)
    } else {
        find_char_from(s, c, i + 1)
    }
}

/// The first position that holds `c`.
pub open spec fn find_char(s: Seq<char>, c: char) -> Option<int> {
    find_char_from(s, c, 0)
}

pub proof fn lemma_find_char_from_bounds(s: Seq<char>, c: char, i: int)
    ensures
        find_char_from(s, c, i) matches Some(j) ==> (0 <= i <= j < s.len() && s[j] == c
            && forall|k: int| i <= k < j ==> s[k] != c),
        find_char_from(s, c, i) is None ==> forall|k: int|
            0 <= i <= k < s.len() ==> s[k] != c,
    decreases s.len() - i,
{
    if i < 0 || i >= s.len() {
    } else if s[i] == c {
    } else {
        lemma_find_char_from_bounds(s, c, i + 1);
    }
}

/// Position of the first `c` in `v[lo..]`, scanning left to right.
pub fn find_char_exec(v: &Vec<char>, c: char, lo: usize) -> (r: Option<usize>)
    requires
        lo <= v@.len(),
    ensures
        match r {
            Some(j) => find_char_from(v@, c, lo as int) == Some(j as int),
            None => find_char_from(v@, c, lo as int) is None,
        },
{
    let mut i: usize = lo;
    while i < v.len()
        invariant
            lo <= i <= v@.len(),
            find_char_from(v@, c, lo as int) == find_char_from(v@, c, i as int),
        decreases v@.len() - i,
    {
        if v[i] == c {
            return Some(i);
        }
        i = i + 1;
    }
    None
}

/// `pat` occurs in `s` at position `i`.
pub open spec fn matches_at(s: Seq<char>, pat: Seq<char>, i: int) -> bool {
    0 <= i && i + pat.len() <= s.len() && s.subrange(i, i + pat.len()) == pat
}

/// The first position at or after `i` where `pat` occurs.
pub open spec fn find_str_from(s: Seq<char>, pat: Seq<char>, i: int) -> Option<int>
    decreases s.len() + 1 - i,
{
    if i < 0 || i + pat.len() > s.len() {
        None
    } else if matches_at(s, pat, i) {
        Some(i)
    } else {
        find_str_from(s, pat, i + 1)
    }
}

/// `pat` occurs somewhere in `s` (`str::contains` with a string pattern).
pub open spec fn contains_str(s: Seq<char>, pat: Seq<char>) -> bool {
    find_str_from(s, pat, 0) is Some
}

pub proof fn lemma_find_str_from_bounds(s: Seq<char>, pat: Seq<char>, i: int)
    ensures
        find_str_from(s, pat, i) matches Some(j) ==> (0 <= i <= j && matches_at(s, pat, j)
            && forall|k: int| i <= k < j ==> !matches_at(s, pat, k)),
        find_str_from(s, pat, i) is None ==> forall|k: int|
            0 <= i <= k ==> !matches_at(s, pat, k),
    decreases s.len() + 1 - i,
{
    if i < 0 || i + pat.len() > s.len() {
    } else if matches_at(s, pat, i) {
    } else {
        lemma_find_str_from_bounds(s, pat, i + 1);
    }
}

/// Whether `pat` occurs in `v` at position `i`.
pub fn matches_at_exec(v: &Vec<char>, pat: &Vec<char>, i: usize) -> (b: bool)
    ensures
        b == matches_at(v@, pat@, i as int),
{
    if i > v.len() || pat.len() > v.len() - i {
        return false;
    }
    let n = v.len();
    let mut k: usize = 0;
    while k < pat.len()
        invariant
            n == v@.len(),
            i + pat@.len() <= v@.len(),
            k <= pat@.len(),
            forall|m: int| 0 <= m < k ==> v@[i + m] == pat@[m],
        decreases pat@.len() - k,
    {
        if v[i + k] != pat[k] {
            assert(v@.subrange(i as int, i + pat@.len())[k as int] != pat@[k as int]);
            return false;
        }
        k = k + 1;
    }
    assert(v@.subrange(i as int, i + pat@.len()) =~= pat@);
    true
}

/// Position of the first occurrence of `pat` in `v[lo..]`, scanning left to right.
pub fn find_str_exec(v: &Vec<char>, pat: &Vec<char>, lo: usize) -> (r: Option<usize>)
    requires
        lo <= v@.len(),
    ensures
        match r {
            Some(j) => find_str_from(v@, pat@, lo as int) == Some(j as int),
            None => find_str_from(v@, pat@, lo as int) is None,
        },
{
    let mut i: usize = lo;
    while i < v.len() && pat.len() <= v.len() - i
        invariant
            lo <= i <= v@.len(),
            find_str_from(v@, pat@, lo as int) == find_str_from(v@, pat@, i as int),
        decreases v@.len() - i,
    {
        if matches_at_exec(v, pat, i) {
            return Some(i);
        }
        i = i + 1;
    }
    if i <= v.len() && pat.len() <= v.len() - i {
        // here i == v.len() and pat is empty
        assert(matches_at(v@, pat@, i as int)) by {
            assert(v@.subrange(i as int, i as int) =~= pat@);
        }
        return Some(i);
    }
    None
}

/// Whether `pat` occurs anywhere in `s`.
pub fn contains_exec(s: &Vec<char>, pat: &Vec<char>) -> (b: bool)
    ensures
        b == contains_str(s@, pat@),
{
    find_str_exec(s, pat, 0).is_some()
}

// ---------------------------------------------------------------------------------------------
// Lines and whitespace
// ---------------------------------------------------------------------------------------------

/// A line with one trailing carriage return removed.
pub open spec fn strip_cr(l: Seq<char>) -> Seq<char> {
    if l.len() > 0 && l.last() == '\r' {
        l.drop_last()
    } else {
        l
    }
}

/// The lines of `s[start..]`, scanning at `i`, where the current line began at `start`.
/// A line ends at `'\n'` (not kept, and a `'\r'` just before it is dropped too); a last line
/// without `'\n'` is kept as it is; no empty line follows a final `'\n'`.
pub open spec fn lines_scan(s: Seq<char>, start: int, i: int) -> Seq<Seq<char>>
    decreases s.len() - i,
{
    if i >= s.len() || i < start || start < 0 {
        if 0 <= start < s.len() {
            seq![s.subrange(start, s.len() as int)]
        } else {
            seq![]
        }
    } else if s[i] == '\n' {
        seq![strip_cr(s.subrange(start, i))] + lines_scan(s, i + 1, i + 1)
    } else {
        lines_scan(s, start, i + 1)
    }
}

/// The lines of `s`, as `str::lines` yields them.
pub open spec fn lines(s: Seq<char>) -> Seq<Seq<char>> {
    lines_scan(s, 0, 0)
}

/// The views of a `Result` of strings.
pub open spec fn result_view(r: Result<String, String>) -> Result<Seq<char>, Seq<char>> {
    match r {
        Ok(s) => Ok(s@),
        Err(e) => Err(e@),
    }
}

/// The views of a vector of strings.
pub open spec fn views(v: Seq<String>) -> Seq<Seq<char>> {
    v.map_values(|x: String| x@)
}

/// Strips one trailing `'\r'` off `v[lo..hi]`, giving the end of what remains.
fn strip_cr_end(v: &Vec<char>, lo: usize, hi: usize) -> (e: usize)
    requires
        lo <= hi <= v@.len(),
    ensures
        lo <= e <= hi,
        v@.subrange(lo as int, e as int) == strip_cr(v@.subrange(lo as int, hi as int)),
{
    if hi > lo && v[hi - 1] == '\r' {
        assert(v@.subrange(lo as int, hi as int).drop_last() =~= v@.subrange(
            lo as int,
            hi - 1,
        ));
        hi - 1
    } else {
        hi
    }
}

/// The lines of `s`, each as a `String` (`str::lines` collected).
pub fn split_lines(s: &str) -> (r: Vec<String>)
    ensures
        views(r@) == lines(s@),
{
    let v = chars_of(s);
    let mut r: Vec<String> = Vec::new();
    let mut start: usize = 0;
    let mut i: usize = 0;
    while i < v.len()
        invariant
            v@ == s@,
            start <= i <= v@.len(),
            lines(s@) == views(r@) + lines_scan(s@, start as int, i as int),
        decreases v@.len() - i,
    {
        if v[i] == '\n' {
            let e = strip_cr_end(&v, start, i);
            let line = string_of_range(&v, start, e);
            let ghost old_r = r@;
            r.push(line);
            assert(views(r@) =~= views(old_r) + seq![strip_cr(s@.subrange(start as int, i as int))]);
            start = i + 1;
        }
        i = i + 1;
    }
    if start < v.len() {
        let line = string_of_range(&v, start, v.len());
        let ghost old_r = r@;
        r.push(line);
        assert(views(r@) =~= views(old_r) + seq![s@.subrange(start as int, s@.len() as int)]);
    }
    assert(views(r@) =~= lines(s@));
    r
}

/// The first line of `s`, if there is one (`str::lines().next()`).
pub fn first_line(s: &str) -> (r: Option<String>)
    ensures
        match r {
            Some(l) => lines(s@).len() > 0 && l@ == lines(s@)[0],
            None => lines(s@).len() == 0,
        },
{
    let ls = split_lines(s);
    if ls.len() == 0 {
        None
    } else {
        let l = ls[0].clone();
        assert(views(ls@)[0] == ls@[0]@);
        Some(l)
    }
}

/// The pieces of `s[start..]` between the separators `sep`, scanning at `i`, where the current
/// piece began at `start`.
pub open spec fn split_scan(s: Seq<char>, sep: char, start: int, i: int) -> Seq<Seq<char>>
    decreases s.len() - i,
{
    if i >= s.len() || i < start || start < 0 {
        seq![s.subrange(start, s.len() as int)]
    } else if s[i] == sep {
        seq![s.subrange(start, i)] + split_scan(s, sep, i + 1, i + 1)
    } else {
        split_scan(s, sep, start, i + 1)
    }
}

/// The pieces of `s` between the separators `sep`, as `str::split` yields them (there is
/// always at least one piece).
pub open spec fn split_char(s: Seq<char>, sep: char) -> Seq<Seq<char>> {
    split_scan(s, sep, 0, 0)
}

pub proof fn lemma_split_scan_nonempty(s: Seq<char>, sep: char, start: int, i: int)
    ensures
        split_scan(s, sep, start, i).len() >= 1,
    decreases s.len() - i,
{
    if i >= s.len() || i < start || start < 0 {
    } else if s[i] == sep {
        lemma_split_scan_nonempty(s, sep, i + 1, i + 1);
    } else {
        lemma_split_scan_nonempty(s, sep, start, i + 1);
    }
}

proof fn lemma_split_scan_shift(x: Seq<char>, y: Seq<char>, sep: char, start: int, i: int)
    requires
        0 <= start <= i <= y.len(),
    ensures
        split_scan(x + y, sep, x.len() + start, x.len() + i) == split_scan(y, sep, start, i),
    decreases y.len() - i,
{
    let s = x + y;
    if i >= y.len() {
        assert(s.subrange(x.len() + start, s.len() as int) =~= y.subrange(start, y.len() as int));
    } else {
        assert(s[x.len() + i] == y[i]);
        if y[i] == sep {
            assert(s.subrange(x.len() + start, x.len() + i) =~= y.subrange(start, i));
            lemma_split_scan_shift(x, y, sep, i + 1, i + 1);
        } else {
            lemma_split_scan_shift(x, y, sep, start, i + 1);
        }
    }
}

proof fn lemma_split_scan_join(x: Seq<char>, y: Seq<char>, sep: char, start: int, i: int)
    requires
        0 <= start <= i <= x.len(),
    ensures
        split_scan(x + seq![sep] + y, sep, start, i) == split_scan(x, sep, start, i) + split_char(
            y,
            sep,
        ),
    decreases x.len() - i,
{
    let s = x + seq![sep] + y;
    if i == x.len() {
        assert(s[i] == sep);
        assert(s.subrange(start, i) =~= x.subrange(start, x.len() as int));
        lemma_split_scan_shift(x + seq![sep], y, sep, 0, 0);
    } else {
        assert(s[i] == x[i]);
        if x[i] == sep {
            assert(s.subrange(start, i) =~= x.subrange(start, i));
            lemma_split_scan_join(x, y, sep, i + 1, i + 1);
            assert(seq![x.subrange(start, i)] + (split_scan(x, sep, i + 1, i + 1) + split_char(y, sep))
                =~= (seq![x.subrange(start, i)] + split_scan(x, sep, i + 1, i + 1)) + split_char(y, sep));
        } else {
            lemma_split_scan_join(x, y, sep, start, i + 1);
        }
    }
}

/// Splitting at a separator that stands between `x` and `y` gives the pieces of `x` followed
/// by the pieces of `y`.
pub proof fn lemma_split_join(x: Seq<char>, y: Seq<char>, sep: char)
    ensures
        split_char(x + seq![sep] + y, sep) == split_char(x, sep) + split_char(y, sep),
{
    lemma_split_scan_join(x, y, sep, 0, 0);
}

proof fn lemma_split_scan_plain(s: Seq<char>, sep: char, i: int)
    requires
        0 <= i <= s.len(),
        forall|k: int| 0 <= k < s.len() ==> s[k] != sep,
    ensures
        split_scan(s, sep, 0, i) == seq![s],
    decreases s.len() - i,
{
    if i < s.len() {
        lemma_split_scan_plain(s, sep, i + 1);
    } else {
        assert(s.subrange(0, s.len() as int) =~= s);
    }
}

/// A text without the separator is a single piece.
pub proof fn lemma_split_plain(s: Seq<char>, sep: char)
    requires
        forall|k: int| 0 <= k < s.len() ==> s[k] != sep,
    ensures
        split_char(s, sep) == seq![s],
{
    lemma_split_scan_plain(s, sep, 0);
}

proof fn lemma_lines_scan_plain(s: Seq<char>, i: int)
    requires
        0 <= i <= s.len(),
        forall|k: int| 0 <= k < s.len() - 1 ==> s[k] != '\n',
        s.len() > 0 && s.last() == '\n' ==> i < s.len(),
    ensures
        lines_scan(s, 0, i) == if s.len() == 0 {
            seq![]
        } else if s.last() == '\n' {
            seq![strip_cr(s.drop_last())]
        } else {
            seq![s]
        },
    decreases s.len() - i,
{
    if i < s.len() {
        if s[i] == '\n' {
            assert(i == s.len() - 1);
            assert(s.subrange(0, i) =~= s.drop_last());
            assert(lines_scan(s, i + 1, i + 1) =~= Seq::<Seq<char>>::empty());
            assert(seq![strip_cr(s.drop_last())] + Seq::<Seq<char>>::empty() =~= seq![
                strip_cr(s.drop_last()),
            ]);
        } else {
            lemma_lines_scan_plain(s, i + 1);
        }
    } else if s.len() > 0 {
        assert(s.subrange(0, s.len() as int) =~= s);
    }
}

/// A text with no line break but possibly a final one is one line: itself, or, when it ends
/// in `'\n'`, what comes before it (without a `'\r'` just before the break).
pub proof fn lemma_lines_single(s: Seq<char>)
    requires
        forall|k: int| 0 <= k < s.len() - 1 ==> s[k] != '\n',
    ensures
        lines(s) == if s.len() == 0 {
            seq![]
        } else if s.last() == '\n' {
            seq![strip_cr(s.drop_last())]
        } else {
            seq![s]
        },
{
    lemma_lines_scan_plain(s, 0);
}

/// The pieces of `v` between the separators `sep`, each as a character vector.
pub fn split_on(v: &Vec<char>, sep: char) -> (r: Vec<Vec<char>>)
    ensures
        r@.len() >= 1,
        r@.len() == split_char(v@, sep).len(),
        forall|k: int| 0 <= k < r@.len() ==> (#[trigger] r@[k])@ == split_char(v@, sep)[k],
{
    let mut r: Vec<Vec<char>> = Vec::new();
    let ghost mut done: Seq<Seq<char>> = seq![];
    let mut start: usize = 0;
    let mut i: usize = 0;
    while i < v.len()
        invariant
            start <= i <= v@.len(),
            split_char(v@, sep) == done + split_scan(v@, sep, start as int, i as int),
            r@.len() == done.len(),
            forall|k: int| 0 <= k < r@.len() ==> (#[trigger] r@[k])@ == done[k],
        decreases v@.len() - i,
    {
        if v[i] == sep {
            let piece = sub_vec(v, start, i);
            r.push(piece);
            proof {
                assert(done + (seq![v@.subrange(start as int, i as int)] + split_scan(
                    v@,
                    sep,
                    i + 1,
                    i + 1,
                )) =~= (done + seq![v@.subrange(start as int, i as int)]) + split_scan(
                    v@,
                    sep,
                    i + 1,
                    i + 1,
                ));
                done = done + seq![v@.subrange(start as int, i as int)];
            }
            start = i + 1;
        }
        i = i + 1;
    }
    let n = v.len();
    let piece = sub_vec(v, start, n);
    r.push(piece);
    proof {
        done = done + seq![v@.subrange(start as int, v@.len() as int)];
    }
    assert(split_char(v@, sep) =~= done);
    proof {
        lemma_split_scan_nonempty(v@, sep, 0, 0);
    }
    r
}

/// `s` without leading whitespace.
pub open spec fn trim_start(s: Seq<char>) -> Seq<char>
    decreases s.len(),
{
    if s.len() > 0 && is_ws(s[0]) {
        trim_start(s.drop_first())
    } else {
        s
    }
}

/// `s` without trailing whitespace.
pub open spec fn trim_end(s: Seq<char>) -> Seq<char>
    decreases s.len(),
{
    if s.len() > 0 && is_ws(s.last()) {
        trim_end(s.drop_last())
    } else {
        s
    }
}

/// `s` without leading and trailing whitespace (`str::trim`).
pub open spec fn trim(s: Seq<char>) -> Seq<char> {
    trim_end(trim_start(s))
}

/// The bounds `[lo, hi)` of `trim(v[a..b])` inside `v`.
pub fn trim_bounds(v: &Vec<char>, a: usize, b: usize) -> (r: (usize, usize))
    requires
        a <= b <= v@.len(),
    ensures
        a <= r.0 <= r.1 <= b,
        v@.subrange(r.0 as int, r.1 as int) == trim(v@.subrange(a as int, b as int)),
{
    let mut lo: usize = a;
    while lo < b && is_whitespace(v[lo])
        invariant
            a <= lo <= b <= v@.len(),
            trim_start(v@.subrange(a as int, b as int)) == trim_start(
                v@.subrange(lo as int, b as int),
            ),
        decreases b - lo,
    {
        assert(v@.subrange(lo as int, b as int).drop_first() =~= v@.subrange(lo + 1, b as int));
        lo = lo + 1;
    }
    let mut hi: usize = b;
    while hi > lo && is_whitespace(v[hi - 1])
        invariant
            a <= lo <= hi <= b <= v@.len(),
            trim_end(v@.subrange(lo as int, b as int)) == trim_end(
                v@.subrange(lo as int, hi as int),
            ),
        decreases hi - lo,
    {
        assert(v@.subrange(lo as int, hi as int).drop_last() =~= v@.subrange(
            lo as int,
            hi - 1,
        ));
        hi = hi - 1;
    }
    (lo, hi)
}

/// `s` with leading and trailing whitespace removed (`str::trim`).
pub fn trim_string(s: &str) -> (r: String)
    ensures
        r@ == trim(s@),
{
    let v = chars_of(s);
    let (lo, hi) = trim_bounds(&v, 0, v.len());
    assert(v@.subrange(0, v@.len() as int) =~= v@);
    string_of_range(&v, lo, hi)
}

// ---------------------------------------------------------------------------------------------
// Decimal numerals
// ---------------------------------------------------------------------------------------------

/// The decimal numeral of `n`, without leading zeros.
pub open spec fn dec(n: nat) -> Seq<char>
    decreases n,
{
    if n < 10 {
        seq![digit_char(n)]
    } else {
        dec(n / 10).push(digit_char(n % 10))
    }
}

/// The decimal numeral of an integer, with a leading `'-'` when it is negative
/// (what `to_string` gives for the integer types).
pub open spec fn int_dec(i: int) -> Seq<char> {
    if i < 0 {
        seq!['-'] + dec((-i) as nat)
    } else {
        dec(i as nat)
    }
}

/// The decimal numeral of `n` padded on the left with `'0'` to at least `width` characters
/// (the `{:0width$}` format).
pub open spec fn dec_padded(n: nat, width: nat) -> Seq<char> {
    let d = dec(n);
    if d.len() >= width {
        d
    } else {
        Seq::new((width - d.len()) as nat, |k: int| '0') + d
    }
}

/// The decimal numeral of `n`.
pub fn u64_to_dec(n: u64) -> (s: String)
    ensures
        s@ == dec(n as nat),
{
    let mut digits: Vec<char> = Vec::new();
    let mut q: u64 = n;
    // digits are collected least significant first
    let ghost mut rest: Seq<char> = seq![];
    loop
        invariant_except_break
            dec(n as nat) == dec(q as nat) + rest,
            digits@ == rest.reverse(),
        ensures
            dec(n as nat) == rest,
            digits@ == rest.reverse(),
        decreases q,
    {
        if q < 10 {
            let c = digit_to_char(q);
            digits.push(c);
            proof {
                assert(dec(q as nat) =~= seq![c]);
                rest = seq![c] + rest;
                assert(digits@ =~= rest.reverse());
            }
            break;
        }
        let c = digit_to_char(q % 10);
        digits.push(c);
        proof {
            assert(dec(q as nat) == dec((q / 10) as nat).push(digit_char((q % 10) as nat)));
            assert(dec(q as nat) + rest =~= dec((q / 10) as nat) + (seq![c] + rest));
            rest = seq![c] + rest;
            assert(digits@ =~= rest.reverse());
        }
        q = q / 10;
    }
    assert(dec(n as nat) =~= rest);
    let mut s = String::new();
    let mut k: usize = digits.len();
    while k > 0
        invariant
            k <= digits@.len(),
            digits@ == rest.reverse(),
            s@ == rest.take((rest.len() - k) as int),
        decreases k,
    {
        k = k - 1;
        s.push(digits[k]);
        assert(s@ =~= rest.take((rest.len() - k) as int));
    }
    assert(rest.take(rest.len() as int) =~= rest);
    s
}

/// The decimal numeral of `n`, signed (`i64::to_string`).
pub fn i64_to_dec(n: i64) -> (s: String)
    ensures
        s@ == int_dec(n as int),
{
    if n < 0 {
        let m: u64 = (0i128 - (n as i128)) as u64;
        let d = u64_to_dec(m);
        let mut s = String::new();
        s.push('-');
        s.append(d.as_str());
        assert(s@ =~= seq!['-'] + dec((-(n as int)) as nat));
        s
    } else {
        u64_to_dec(n as u64)
    }
}

/// The decimal numeral of `n`, zero-padded to four characters (the `{:04}` format).
pub fn u64_to_dec4(n: u64) -> (s: String)
    ensures
        s@ == dec_padded(n as nat, 4),
{
    let d = u64_to_dec(n);
    let dv = chars_of(d.as_str());
    if dv.len() >= 4 {
        d
    } else {
        let mut s = String::new();
        let pad: usize = 4 - dv.len();
        let mut k: usize = 0;
        while k < pad
            invariant
                k <= pad,
                pad == 4 - dv@.len(),
                s@ == Seq::new(k as nat, |j: int| '0'),
            decreases pad - k,
        {
            s.push('0');
            k = k + 1;
            assert(s@ =~= Seq::new(k as nat, |j: int| '0'));
        }
        s.append(d.as_str());
        s
    }
}

// ---------------------------------------------------------------------------------------------
// Unsigned integer parsing (`str::parse` for the unsigned integer types)
// ---------------------------------------------------------------------------------------------

/// Why a numeral was refused, as `core::num::IntErrorKind` says it.
#[derive(Clone, Copy, Debug, PartialEq, Eq, Structural)]
pub enum IntError {
    Empty,
    InvalidDigit,
    PosOverflow,
}

/// Reads the digits of `d` after the value `acc` read so far, refusing at the first
/// character that is not a digit or the first digit that takes the value above `max`.
pub open spec fn parse_digits(d: Seq<char>, acc: nat, max: nat) -> Result<nat, IntError>
    decreases d.len(),
{
    if d.len() == 0 {
        Ok(acc)
    } else if !is_digit(d[0]) {
        Err(IntError::InvalidDigit)
    } else if acc * 10 + digit_value(d[0]) > max {
        Err(IntError::PosOverflow)
    } else {
        parse_digits(d.drop_first(), acc * 10 + digit_value(d[0]), max)
    }
}

/// What `str::parse` gives for an unsigned integer type whose largest value is `max`:
/// an optional leading `'+'`, then at least one ASCII digit.
pub open spec fn parse_uint(s: Seq<char>, max: nat) -> Result<nat, IntError> {
    if s.len() == 0 {
        Err(IntError::Empty)
    } else if s.len() == 1 && (s[0] == '+' || s[0] == '-') {
        Err(IntError::InvalidDigit)
    } else if s[0] == '+' {
        parse_digits(s.drop_first(), 0, max)
    } else {
        parse_digits(s, 0, max)
    }
}

/// The `Display` text of a `ParseIntError` of the given kind.
pub open spec fn int_error_text(e: IntError) -> Seq<char> {
    match e {
        IntError::Empty => "cannot parse integer from empty string"@,
        IntError::InvalidDigit => "invalid digit found in string"@,
        IntError::PosOverflow => "number too large to fit in target type"@,
    }
}

pub fn int_error_message(e: IntError) -> (s: String)
    ensures
        s@ == int_error_text(e),
{
    match e {
        IntError::Empty => String::from_str("cannot parse integer from empty string"),
        IntError::InvalidDigit => String::from_str("invalid digit found in string"),
        IntError::PosOverflow => String::from_str("number too large to fit in target type"),
    }
}

/// Parses `v[lo..hi]` as an unsigned number no larger than `max`.
pub fn parse_uint_range(v: &Vec<char>, lo: usize, hi: usize, max: u32) -> (r: Result<
    u32,
    IntError,
>)
    requires
        lo <= hi <= v@.len(),
    ensures
        r matches Ok(n) ==> n <= max,
        match r {
            Ok(n) => parse_uint(v@.subrange(lo as int, hi as int), max as nat) == Ok::<
                nat,
                IntError,
            >(n as nat),
            Err(e) => parse_uint(v@.subrange(lo as int, hi as int), max as nat) == Err::<
                nat,
                IntError,
            >(e),
        },
{
    let ghost s = v@.subrange(lo as int, hi as int);
    if lo == hi {
        return Err(IntError::Empty);
    }
    if hi - lo == 1 && (v[lo] == '+' || v[lo] == '-') {
        return Err(IntError::InvalidDigit);
    }
    let mut i: usize = lo;
    if v[lo] == '+' {
        i = lo + 1;
        assert(s.drop_first() =~= v@.subrange(i as int, hi as int));
    } else {
        assert(s =~= v@.subrange(i as int, hi as int));
    }
    let mut acc: u32 = 0;
    while i < hi
        invariant
            lo <= i <= hi <= v@.len(),
            s == v@.subrange(lo as int, hi as int),
            acc <= max,
            parse_uint(s, max as nat) == parse_digits(
                v@.subrange(i as int, hi as int),
                acc as nat,
                max as nat,
            ),
        decreases hi - i,
    {
        let c = v[i];
        assert(v@.subrange(i as int, hi as int).len() > 0);
        assert(v@.subrange(i as int, hi as int)[0] == c);
        if !('0' <= c && c <= '9') {
            assert(!is_digit(c));
            return Err(IntError::InvalidDigit);
        }
        let dgt: u32 = (c as u32) - 48;
        assert(digit_value(c) == dgt);
        if dgt > max {
            assert(acc * 10 + dgt > max) by (nonlinear_arith)
                requires
                    dgt > max,
            ;
            return Err(IntError::PosOverflow);
        }
        if acc > (max - dgt) / 10 {
            assert(acc * 10 + dgt > max) by (nonlinear_arith)
                requires
                    acc > (max - dgt) / 10,
                    dgt <= max,
            ;
            return Err(IntError::PosOverflow);
        }
        assert(acc * 10 + dgt <= max) by (nonlinear_arith)
            requires
                acc <= (max - dgt) / 10,
                dgt <= max,
        ;
        assert(v@.subrange(i as int, hi as int).drop_first() =~= v@.subrange(i + 1, hi as int));
        acc = acc * 10 + dgt;
        i = i + 1;
    }
    Ok(acc)
}

// ---------------------------------------------------------------------------------------------
// UTF-8 lengths
// ---------------------------------------------------------------------------------------------

/// Number of bytes of the UTF-8 encoding of `s` (what `str::len` counts).
pub open spec fn byte_len(s: Seq<char>) -> nat {
    encode_utf8(s).len()
}

/// Number of bytes of the UTF-8 encoding of one character.
pub open spec fn char_width(c: char) -> nat {
    encode_scalar(c as u32).len()
}

pub proof fn lemma_encode_utf8_add(a: Seq<char>, b: Seq<char>)
    ensures
        encode_utf8(a + b) == encode_utf8(a) + encode_utf8(b),
    decreases a.len(),
{
    if a.len() == 0 {
        assert(a + b =~= b);
        assert(encode_utf8(a) =~= Seq::<u8>::empty());
        assert(encode_utf8(a) + encode_utf8(b) =~= encode_utf8(b));
    } else {
        lemma_encode_utf8_add(a.drop_first(), b);
        assert((a + b).drop_first() =~= a.drop_first() + b);
        assert((a + b)[0] == a[0]);
        assert(encode_utf8(a + b) =~= encode_scalar(a[0] as u32) + encode_utf8(a.drop_first() + b));
        assert(encode_utf8(a) + encode_utf8(b) =~= encode_scalar(a[0] as u32) + (encode_utf8(
            a.drop_first(),
        ) + encode_utf8(b)));
    }
}

pub proof fn lemma_byte_len_push(s: Seq<char>, c: char)
    ensures
        byte_len(s.push(c)) == byte_len(s) + char_width(c),
{
    lemma_encode_utf8_add(s, seq![c]);
    assert(s.push(c) =~= s + seq![c]);
    assert(seq![c].drop_first() =~= Seq::<char>::empty());
    assert(encode_utf8(seq![c]) =~= encode_scalar(c as u32) + encode_utf8(Seq::<char>::empty()));
}

pub proof fn lemma_byte_len_prefix(s: Seq<char>, k: int)
    requires
        0 <= k <= s.len(),
    ensures
        byte_len(s.take(k)) <= byte_len(s),
{
    lemma_encode_utf8_add(s.take(k), s.skip(k));
    assert(s.take(k) + s.skip(k) =~= s);
}

/// Number of bytes of the UTF-8 encoding of `c` (`char::len_utf8`).
pub fn char_width_exec(c: char) -> (w: usize)
    ensures
        w == char_width(c),
        1 <= w <= 4,
{
    proof {
        char_is_scalar(c);
    }
    let u = c as u32;
    if u <= 0x7f {
        1
    } else if u <= 0x7ff {
        2
    } else if u <= 0xffff {
        3
    } else {
        4
    }
}

} // verus!
