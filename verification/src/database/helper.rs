//! Names of new assets, the counter that numbers them, and which committed assets the
//! database does not know yet.
use vstd::prelude::*;

use crate::config::{COUNTER_TABLE, ID, NEXT_ASSET_ID};
use crate::text::{chars_of, find_char, find_char_exec, is_digit, views};

verus! {

// ---------------------------------------------------------------------------------------------
// File name sanitisation
// ---------------------------------------------------------------------------------------------

/// What `str::to_lowercase` gives for a string.
pub uninterp spec fn lowercase(s: Seq<char>) -> Seq<char>;

/// What `char::is_alphanumeric` says of a character.
pub uninterp spec fn alphanumeric(c: char) -> bool;

/// An ASCII character.
pub open spec fn is_ascii_char(c: char) -> bool {
    c <= '\u{7f}'
}

/// The ASCII lowercase of a character: `'A'..='Z'` become `'a'..='z'`, others stay.
pub open spec fn ascii_lower(c: char) -> char {
    if 'A' <= c <= 'Z' {
        ((c as u32) + 32) as char
    } else {
        c
    }
}

/// An ASCII letter or digit.
pub open spec fn ascii_alnum(c: char) -> bool {
    is_digit(c) || ('a' <= c <= 'z') || ('A' <= c <= 'Z')
}

/// Calls `str::to_lowercase`. The contract claims that the result is `lowercase` of the
/// string, and that for an ASCII string it is the string with each ASCII capital letter
/// lowered; what it is for other strings (the full Unicode mapping) is left unsaid.
#[verifier::external_body]
pub(crate) fn to_lowercase(s: &str) -> (r: String)
    ensures
        r@ == lowercase(s@),
        vstd::utf8::is_ascii_chars(s@) ==> r@ == s@.map_values(|c: char| ascii_lower(c)),
{
    s.to_lowercase()
}

/// Calls `char::is_alphanumeric`. The contract claims that the result is `alphanumeric` of
/// the character, and that for an ASCII character it says whether it is an ASCII letter or
/// digit; what it says of other characters (Unicode letters and numbers) is left unsaid.
#[verifier::external_body]
pub(crate) fn is_alphanumeric(c: char) -> (b: bool)
    ensures
        b == alphanumeric(c),
        is_ascii_char(c) ==> b == ascii_alnum(c),
{
    c.is_alphanumeric()
}

/// What comes before the first `'.'` of a file name (all of it when it has none).
pub open spec fn stem(filename: Seq<char>) -> Seq<char> {
    match find_char(filename, '.') {
        Some(i) => filename.take(i),
        None => filename,
    }
}

/// A character kept when alphanumeric, otherwise replaced by `'_'`.
pub open spec fn keep_or_underscore(c: char) -> char {
    if alphanumeric(c) {
        c
    } else {
        '_'
    }
}

/// The sanitised name of a file: its stem in lowercase, with every character that is not
/// alphanumeric replaced by `'_'`.
pub open spec fn sanitized(filename: Seq<char>) -> Seq<char> {
    lowercase(stem(filename)).map_values(|c: char| keep_or_underscore(c))
}

/// The same, for an ASCII name, with the ASCII meanings of lowercase and alphanumeric.
pub open spec fn ascii_sanitized(filename: Seq<char>) -> Seq<char> {
    stem(filename).map_values(
        |c: char|
            if ascii_alnum(ascii_lower(c)) {
                ascii_lower(c)
            } else {
                '_'
            },
    )
}

/// The name an asset id is built from: the file name up to its first `'.'`, lowercased,
/// with each character that is not alphanumeric replaced by `'_'`.
pub fn sanitize_name(filename: &str) -> (r: String)
    ensures
        r@ == sanitized(filename@),
        vstd::utf8::is_ascii_chars(filename@) ==> r@ == ascii_sanitized(filename@),
{
    let v = chars_of(filename);
    let end = match find_char_exec(&v, '.', 0) {
        Some(i) => i,
        None => v.len(),
    };
    proof {
        crate::text::lemma_find_char_from_bounds(v@, '.', 0);
    }
    let stem_str = crate::text::string_of_range(&v, 0, end);
    assert(stem_str@ =~= stem(filename@));
    let lowered = to_lowercase(stem_str.as_str());
    let lv = chars_of(lowered.as_str());
    let mut out = String::new();
    let mut i: usize = 0;
    while i < lv.len()
        invariant
            i <= lv@.len(),
            lv@ == lowercase(stem(filename@)),
            vstd::utf8::is_ascii_chars(filename@) ==> lv@ == stem(filename@).map_values(
                |c: char| ascii_lower(c),
            ),
            out@ == lv@.take(i as int).map_values(|c: char| keep_or_underscore(c)),
            vstd::utf8::is_ascii_chars(filename@) ==> out@ == stem(filename@).take(
                i as int,
            ).map_values(
                |c: char|
                    if ascii_alnum(ascii_lower(c)) {
                        ascii_lower(c)
                    } else {
                        '_'
                    },
            ),
        decreases lv@.len() - i,
    {
        let c = lv[i];
        let keep = is_alphanumeric(c);
        let ghost before = out@;
        if keep {
            out.push(c);
        } else {
            out.push('_');
        }
        proof {
            assert(lv@.take(i + 1) =~= lv@.take(i as int).push(c));
            assert(out@ =~= lv@.take(i + 1).map_values(|c: char| keep_or_underscore(c)));
            if vstd::utf8::is_ascii_chars(filename@) {
                let st = stem(filename@);
                crate::text::lemma_find_char_from_bounds(filename@, '.', 0);
                assert(st.len() == lv@.len());
                assert(st[i as int] == filename@[i as int]);
                assert(st[i as int] <= '\u{7f}');
                assert(is_ascii_char(c));
                assert(st.take(i + 1) =~= st.take(i as int).push(st[i as int]));
                assert(out@ =~= st.take(i + 1).map_values(
                    |c: char|
                        if ascii_alnum(ascii_lower(c)) {
                            ascii_lower(c)
                        } else {
                            '_'
                        },
                ));
            }
        }
        i = i + 1;
    }
    assert(lv@.take(lv@.len() as int) =~= lv@);
    proof {
        if vstd::utf8::is_ascii_chars(filename@) {
            assert(stem(filename@).take(lv@.len() as int) =~= stem(filename@));
        }
    }
    out
}

/// Once sanitised, an ASCII file name holds only lowercase ASCII letters, digits and `'_'`,
/// and sanitising it again changes nothing.
pub proof fn lemma_ascii_sanitized_idempotent(filename: Seq<char>)
    requires
        vstd::utf8::is_ascii_chars(filename),
    ensures
        forall|i: int|
            0 <= i < ascii_sanitized(filename).len() ==> {
                let c = #[trigger] ascii_sanitized(filename)[i];
                c == '_' || is_digit(c) || ('a' <= c <= 'z')
            },
        vstd::utf8::is_ascii_chars(ascii_sanitized(filename)),
        ascii_sanitized(ascii_sanitized(filename)) == ascii_sanitized(filename),
{
    let s = ascii_sanitized(filename);
    let st = stem(filename);
    crate::text::lemma_find_char_from_bounds(filename, '.', 0);
    assert forall|i: int| 0 <= i < s.len() implies {
        let c = #[trigger] s[i];
        c == '_' || is_digit(c) || ('a' <= c <= 'z')
    } by {
        let c0 = st[i];
        if 'A' <= c0 <= 'Z' {
            assert(ascii_lower(c0) == ((c0 as u32) + 32) as char);
        }
    }
    // no '.' in the sanitised name, so its stem is all of it
    crate::text::lemma_find_char_from_bounds(s, '.', 0);
    assert(stem(s) =~= s);
    assert(ascii_sanitized(s) =~= s) by {
        assert forall|i: int| 0 <= i < s.len() implies ascii_sanitized(s)[i] == s[i] by {
            let c = s[i];
            assert(c == '_' || is_digit(c) || ('a' <= c <= 'z'));
        }
    }
}

// ---------------------------------------------------------------------------------------------
// The asset counter
// ---------------------------------------------------------------------------------------------

/// The query that reads the counter: `SELECT next_asset_id FROM counters WHERE id = ?1;`.
pub fn select_counter_query() -> (q: String)
    ensures
        q@ == "SELECT "@ + NEXT_ASSET_ID@ + " FROM "@ + COUNTER_TABLE@ + " WHERE "@ + ID@
            + " = ?1;"@,
{
    let mut q = String::from_str("SELECT ");
    q.append(NEXT_ASSET_ID);
    q.append(" FROM ");
    q.append(COUNTER_TABLE);
    q.append(" WHERE ");
    q.append(ID);
    q.append(" = ?1;");
    q
}

/// The query that writes the new value of the counter into the counter table's row:
/// `UPDATE counters SET next_asset_id = ?1 WHERE id = ?2;`.
pub fn update_counter_query() -> (q: String)
    ensures
        q@ == "UPDATE "@ + COUNTER_TABLE@ + " SET "@ + NEXT_ASSET_ID@ + " = ?1 WHERE "@ + ID@
            + " = ?2;"@,
{
    let mut q = String::from_str("UPDATE ");
    q.append(COUNTER_TABLE);
    q.append(" SET ");
    q.append(NEXT_ASSET_ID);
    q.append(" = ?1 WHERE ");
    q.append(ID);
    q.append(" = ?2;");
    q
}

// ---------------------------------------------------------------------------------------------
// Assets missing from the database
// ---------------------------------------------------------------------------------------------

/// The positions `j < n`, in increasing order, of the ids in `ids` that `known` does not hold.
pub open spec fn unknown_positions(known: Seq<Seq<char>>, ids: Seq<Seq<char>>, n: int) -> Seq<
    usize,
>
    decreases n,
{
    if n <= 0 || n > ids.len() {
        seq![]
    } else if known.contains(ids[n - 1]) {
        unknown_positions(known, ids, n - 1)
    } else {
        unknown_positions(known, ids, n - 1).push((n - 1) as usize)
    }
}

/// Whether `known` holds `id`.
fn holds(known: &Vec<String>, id: &String) -> (b: bool)
    ensures
        b == views(known@).contains(id@),
{
    let mut k: usize = 0;
    while k < known.len()
        invariant
            k <= known@.len(),
            forall|m: int| 0 <= m < k ==> known@[m]@ != id@,
        decreases known@.len() - k,
    {
        if known[k] == *id {
            assert(views(known@)[k as int] == id@);
            return true;
        }
        k = k + 1;
    }
    assert forall|m: int| 0 <= m < views(known@).len() implies views(known@)[m] != id@ by {
        assert(views(known@)[m] == known@[m]@);
    }
    false
}

/// The positions, in increasing order, of the asset ids of the committed files (`asset_ids`)
/// that the database (whose ids are `db_ids`) does not hold yet.
pub fn missing_asset_positions(db_ids: &Vec<String>, asset_ids: &Vec<String>) -> (r: Vec<usize>)
    ensures
        r@ == unknown_positions(views(db_ids@), views(asset_ids@), asset_ids@.len() as int),
{
    let mut r: Vec<usize> = Vec::new();
    let mut j: usize = 0;
    while j < asset_ids.len()
        invariant
            j <= asset_ids@.len(),
            r@ == unknown_positions(views(db_ids@), views(asset_ids@), j as int),
        decreases asset_ids@.len() - j,
    {
        assert(views(asset_ids@)[j as int] == asset_ids@[j as int]@);
        if !holds(db_ids, &asset_ids[j]) {
            r.push(j);
        }
        j = j + 1;
    }
    r
}

} // verus!
