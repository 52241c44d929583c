//! The tag of an asset at a version.
use vstd::prelude::*;

use crate::config::NO_TAG_ERROR;
use crate::git::tag::{lemma_tail_start_bounds, next_tag_of, tail_start};
use crate::string_formating::helper::{
    is_sep_at, last_sep, parse_version_tuple, rfind_sep, split3, strip_v, tag_parts,
    version_tuple,
};
use crate::string_formating::pub_helper::tag_version;
use crate::text::{
    byte_len, char_width, concat3, dec, dec_padded, digit_char, digit_value, find_char_from,
    is_digit, lemma_byte_len_prefix, lemma_byte_len_push, lemma_find_char_from_bounds,
    parse_digits, parse_uint,
};

verus! {

/// Makes the tag `<asset_id>-v<version>`, once `version` has been checked to read as
/// `[v]<major>.<minor>.<patch>`; otherwise gives the reason it does not.
pub fn stamp_version(asset_id: &str, version: &str) -> (r: Result<String, String>)
    ensures
        match version_tuple(version@) {
            Ok(_) => r matches Ok(t) && t@ == asset_id@ + "-v"@ + version@,
            Err(m) => r matches Err(e) && e@ == m,
        },
{
    match parse_version_tuple(version) {
        Ok(_) => Ok(concat3(asset_id, "-v", version)),
        Err(e) => Err(e),
    }
}

// ---------------------------------------------------------------------------------------------
// Laws of tags
// ---------------------------------------------------------------------------------------------

proof fn lemma_parse_digits_ok(d: Seq<char>, acc: nat, max: nat)
    requires
        parse_digits(d, acc, max) is Ok,
    ensures
        forall|i: int| 0 <= i < d.len() ==> is_digit(#[trigger] d[i]),
    decreases d.len(),
{
    if d.len() > 0 {
        lemma_parse_digits_ok(d.drop_first(), acc * 10 + digit_value(d[0]), max);
        assert forall|i: int| 0 <= i < d.len() implies is_digit(#[trigger] d[i]) by {
            if i > 0 {
                assert(d[i] == d.drop_first()[i - 1]);
            }
        }
    }
}

/// A character that a version may hold: a digit, `'.'`, `'+'` or `'v'`.
pub open spec fn version_char(c: char) -> bool {
    is_digit(c) || c == '.' || c == '+' || c == 'v'
}

/// A version that reads as `[v]<major>.<minor>.<patch>` holds only digits, dots, `'+'`
/// signs and its leading `'v'`.
pub proof fn lemma_version_chars(version: Seq<char>)
    requires
        version_tuple(version) is Ok,
    ensures
        forall|i: int| 0 <= i < version.len() ==> version_char(#[trigger] version[i]),
{
    let v = strip_v(version);
    let (p0, p1, p2) = split3(v)->Some_0;
    lemma_find_char_from_bounds(v, '.', 0);
    let a = find_char_from(v, '.', 0)->Some_0;
    lemma_find_char_from_bounds(v, '.', a + 1);
    let b = find_char_from(v, '.', a + 1)->Some_0;
    lemma_parse_uint_chars(p0, u32::MAX as nat);
    lemma_parse_uint_chars(p1, u32::MAX as nat);
    lemma_parse_uint_chars(p2, u32::MAX as nat);
    assert forall|i: int| 0 <= i < v.len() implies version_char(#[trigger] v[i]) by {
        if i < a {
            assert(v[i] == p0[i]);
        } else if i == a || i == b {
        } else if i < b {
            assert(v[i] == p1[i - a - 1]);
        } else {
            assert(v[i] == p2[i - b - 1]);
        }
    }
    assert forall|i: int| 0 <= i < version.len() implies version_char(#[trigger] version[i]) by {
        if version.len() > 0 && version[0] == 'v' {
            if i > 0 {
                assert(version[i] == v[i - 1]);
            }
        } else {
            assert(version[i] == v[i]);
        }
    }
}

/// A version that reads as `[v]<major>.<minor>.<patch>` holds no `'-'`.
pub proof fn lemma_version_has_no_dash(version: Seq<char>)
    requires
        version_tuple(version) is Ok,
    ensures
        forall|i: int| 0 <= i < version.len() ==> #[trigger] version[i] != '-',
{
    lemma_version_chars(version);
    assert forall|i: int| 0 <= i < version.len() implies #[trigger] version[i] != '-' by {
        assert(version_char(version[i]));
    }
}

proof fn lemma_rfind_sep_skip(s: Seq<char>, j: int, k: int)
    requires
        k <= j,
        forall|i: int| k <= i < j ==> !is_sep_at(s, i),
    ensures
        rfind_sep(s, j) == rfind_sep(s, k),
    decreases j - k,
{
    if j > k {
        lemma_rfind_sep_skip(s, j - 1, k);
    }
}

/// The tag that `stamp_version` makes of an asset id and a valid version splits back into
/// that asset id and the version (with a leading `'v'`): whatever the asset id holds, the
/// version holds no `"-v"`, so the last one is the one between them.
pub proof fn lemma_stamped_tag_splits(asset_id: Seq<char>, version: Seq<char>)
    requires
        version_tuple(version) is Ok,
    ensures
        tag_parts(asset_id + "-v"@ + version) == Some((asset_id, seq!['v'] + version)),
        tag_version(asset_id + "-v"@ + version) == Some(seq!['v'] + version),
{
    reveal_strlit("-v");
    let t = asset_id + "-v"@ + version;
    let n = asset_id.len() as int;
    lemma_version_has_no_dash(version);
    assert forall|i: int| n + 1 <= i < t.len() implies !is_sep_at(t, i) by {
        if i == n + 1 {
            assert(t[i] == 'v');
        } else {
            assert(t[i] == version[i - n - 2]);
        }
    }
    lemma_rfind_sep_skip(t, t.len() as int, n + 1);
    assert(t[n] == '-' && t[n + 1] == 'v');
    assert(is_sep_at(t, n));
    assert(last_sep(t) == Some(n));
    assert(t.take(n) =~= asset_id);
    assert(t.skip(n + 2) =~= version);
}

/// `get_version` and `get_assetid_version_tag` agree on the version of every tag.
pub proof fn lemma_version_agrees(tag: Seq<char>)
    ensures
        tag_version(tag) == match tag_parts(tag) {
            Some((_, v)) => Some(v),
            None => None::<Seq<char>>,
        },
{
}

/// The first tag of an asset is the tag that `stamp_version` makes for version
/// `00.00.0001`, and it reads back as that asset at version `v00.00.0001`, i.e. (0, 0, 1).
pub proof fn lemma_first_tag(asset_id: Seq<char>)
    ensures
        next_tag_of(asset_id, Err(NO_TAG_ERROR@)) == Ok::<Seq<char>, Seq<char>>(
            asset_id + "-v"@ + "00.00.0001"@,
        ),
        version_tuple("00.00.0001"@) == Ok::<(u32, u32, u32), Seq<char>>((0, 0, 1)),
        version_tuple("v00.00.0001"@) == Ok::<(u32, u32, u32), Seq<char>>((0, 0, 1)),
        tag_parts(asset_id + "-v"@ + "00.00.0001"@) == Some((asset_id, "v00.00.0001"@)),
{
    reveal_strlit("-v00.00.0001");
    reveal_strlit("-v");
    reveal_strlit("00.00.0001");
    reveal_strlit("v00.00.0001");
    assert(asset_id + "-v00.00.0001"@ =~= asset_id + "-v"@ + "00.00.0001"@);
    let v = "00.00.0001"@;
    assert(strip_v(v) == v);
    assert(find_char_from(v, '.', 0) == Some(2int)) by {
        assert(find_char_from(v, '.', 1) == find_char_from(v, '.', 2));
        assert(find_char_from(v, '.', 0) == find_char_from(v, '.', 1));
    }
    assert(find_char_from(v, '.', 3) == Some(5int)) by {
        assert(find_char_from(v, '.', 4) == find_char_from(v, '.', 5));
        assert(find_char_from(v, '.', 3) == find_char_from(v, '.', 4));
    }
    assert(v.take(2) =~= seq!['0', '0']);
    assert(v.subrange(3, 5) =~= seq!['0', '0']);
    assert(v.skip(6) =~= seq!['0', '0', '0', '1']);
    reveal_with_fuel(parse_digits, 5);
    assert(parse_uint(seq!['0', '0'], u32::MAX as nat) == Ok::<nat, crate::text::IntError>(0));
    assert(parse_uint(seq!['0', '0', '0', '1'], u32::MAX as nat) == Ok::<
        nat,
        crate::text::IntError,
    >(1));
    assert(strip_v("v00.00.0001"@) =~= v);
    lemma_stamped_tag_splits(asset_id, v);
    assert(seq!['v'] + v =~= "v00.00.0001"@);
}

proof fn lemma_dec_digits(n: nat)
    ensures
        forall|i: int| 0 <= i < dec(n).len() ==> is_digit(#[trigger] dec(n)[i]),
    decreases n,
{
    if n >= 10 {
        lemma_dec_digits(n / 10);
        let d = dec(n / 10);
        assert forall|i: int| 0 <= i < dec(n).len() implies is_digit(#[trigger] dec(n)[i]) by {
            if i < d.len() {
                assert(dec(n)[i] == d[i]);
            } else {
                assert(dec(n)[i] == digit_char(n % 10));
            }
        }
    }
}

proof fn lemma_dec_padded_digits(n: nat, width: nat)
    ensures
        forall|i: int| 0 <= i < dec_padded(n, width).len() ==> is_digit(
            #[trigger] dec_padded(n, width)[i],
        ),
{
    lemma_dec_digits(n);
    let d = dec(n);
    if d.len() < width {
        let pad = Seq::new((width - d.len()) as nat, |k: int| '0');
        assert forall|i: int| 0 <= i < dec_padded(n, width).len() implies is_digit(
            #[trigger] dec_padded(n, width)[i],
        ) by {
            if i < pad.len() {
                assert(dec_padded(n, width)[i] == pad[i]);
            } else {
                assert(dec_padded(n, width)[i] == d[i - pad.len()]);
            }
        }
    }
}

/// A numeral that parses holds only digits and `'+'` signs.
pub proof fn lemma_parse_uint_chars(s: Seq<char>, max: nat)
    requires
        parse_uint(s, max) is Ok,
    ensures
        forall|i: int| 0 <= i < s.len() ==> (is_digit(#[trigger] s[i]) || s[i] == '+'),
{
    if s[0] == '+' {
        lemma_parse_digits_ok(s.drop_first(), 0, max);
        assert forall|i: int| 0 <= i < s.len() implies (is_digit(#[trigger] s[i]) || s[i]
            == '+') by {
            if i > 0 {
                assert(s[i] == s.drop_first()[i - 1]);
            }
        }
    } else {
        lemma_parse_digits_ok(s, 0, max);
    }
}

/// The next tag of an asset names the same asset: when the newest tag `latest` splits at
/// its last `"-v"` and a next tag is made from it, that tag splits into the same asset id,
/// since the number it changes holds no `"-v"`.
pub proof fn lemma_next_tag_keeps_asset(asset_id: Seq<char>, latest: Seq<char>)
    requires
        tag_parts(latest) is Some,
        tail_start(latest, 4) is Some,
        next_tag_of(asset_id, Ok(latest)) is Ok,
    ensures
        tag_parts(next_tag_of(asset_id, Ok(latest))->Ok_0) matches Some((a, _)) && a
            == tag_parts(latest)->Some_0.0,
{
    let k = tail_start(latest, 4)->0;
    let suffix = latest.skip(k);
    let n = parse_uint(suffix, u32::MAX as nat)->Ok_0;
    let digits = dec_padded(n + 1, 4);
    let t = latest.take(k) + digits;
    assert(next_tag_of(asset_id, Ok(latest))->Ok_0 == t);
    lemma_tail_start_bounds(latest, 4);
    lemma_parse_uint_chars(suffix, u32::MAX as nat);
    lemma_dec_padded_digits(n + 1, 4);
    // Neither the old number nor the new one holds a '-' or a 'v'.
    assert forall|i: int| k <= i < latest.len() implies latest[i] != '-' && latest[i] != 'v' by {
        assert(latest[i] == suffix[i - k]);
    }
    assert forall|i: int| k <= i < t.len() implies t[i] != '-' && t[i] != 'v' by {
        assert(t[i] == digits[i - k]);
    }
    assert forall|i: int| k <= i implies !is_sep_at(latest, i) && !is_sep_at(t, i) by {}
    assert forall|i: int| i < k implies is_sep_at(latest, i) == is_sep_at(t, i) by {
        if 0 <= i && i + 1 < k {
            assert(t[i] == latest[i]);
            assert(t[i + 1] == latest[i + 1]);
        } else if 0 <= i {
            assert(t[i + 1] != 'v');
        }
    }
    lemma_rfind_sep_skip(latest, latest.len() as int, k);
    lemma_rfind_sep_skip(t, t.len() as int, k);
    lemma_rfind_sep_agree(latest, t, k);
    crate::string_formating::helper::lemma_rfind_sep(latest, k);
    let i = last_sep(latest)->Some_0;
    assert(t.take(i) =~= latest.take(i)) by {
        assert forall|x: int| 0 <= x < i implies t[x] == latest[x] by {}
    }
}

proof fn lemma_rfind_sep_agree(a: Seq<char>, b: Seq<char>, j: int)
    requires
        forall|i: int| i < j ==> is_sep_at(a, i) == is_sep_at(b, i),
    ensures
        rfind_sep(a, j) == rfind_sep(b, j),
    decreases j,
{
    if j > 0 {
        lemma_rfind_sep_agree(a, b, j - 1);
    }
}

// ---------------------------------------------------------------------------------------------
// The next version of an asset
// ---------------------------------------------------------------------------------------------

proof fn lemma_parse_digits_append(p: Seq<char>, q: Seq<char>, acc: nat, max: nat)
    ensures
        parse_digits(p + q, acc, max) == match parse_digits(p, acc, max) {
            Ok(a) => parse_digits(q, a, max),
            Err(e) => Err(e),
        },
    decreases p.len(),
{
    if p.len() == 0 {
        assert(p + q =~= q);
    } else {
        assert((p + q).drop_first() =~= p.drop_first() + q);
        assert((p + q)[0] == p[0]);
        if is_digit(p[0]) && acc * 10 + digit_value(p[0]) <= max {
            lemma_parse_digits_append(p.drop_first(), q, acc * 10 + digit_value(p[0]), max);
        }
    }
}

proof fn lemma_digit_roundtrip(d: nat)
    requires
        d < 10,
    ensures
        is_digit(digit_char(d)),
        digit_value(digit_char(d)) == d,
{
}

proof fn lemma_parse_dec(n: nat, max: nat)
    requires
        n <= max,
    ensures
        parse_digits(dec(n), 0, max) == Ok::<nat, crate::text::IntError>(n),
    decreases n,
{
    reveal_with_fuel(parse_digits, 2);
    if n < 10 {
        lemma_digit_roundtrip(n);
        assert(seq![digit_char(n)].drop_first() =~= Seq::<char>::empty());
        assert(parse_digits(seq![digit_char(n)], 0, max) == parse_digits(
            Seq::<char>::empty(),
            n,
            max,
        ));
    } else {
        lemma_parse_dec(n / 10, max);
        let c = digit_char(n % 10);
        lemma_digit_roundtrip(n % 10);
        assert(dec(n) =~= dec(n / 10) + seq![c]);
        lemma_parse_digits_append(dec(n / 10), seq![c], 0, max);
        assert(seq![c].drop_first() =~= Seq::<char>::empty());
        assert((n / 10) * 10 + n % 10 == n);
        assert(parse_digits(seq![c], n / 10, max) == parse_digits(Seq::<char>::empty(), n, max));
    }
}

proof fn lemma_parse_zeros(k: nat, acc: nat, max: nat)
    requires
        acc == 0,
    ensures
        parse_digits(Seq::new(k, |i: int| '0'), acc, max) == Ok::<nat, crate::text::IntError>(0),
    decreases k,
{
    if k > 0 {
        assert(Seq::new(k, |i: int| '0').drop_first() =~= Seq::new((k - 1) as nat, |i: int| '0'));
        lemma_parse_zeros((k - 1) as nat, 0, max);
    }
}

/// Reading back a zero-padded numeral gives its number.
proof fn lemma_parse_dec_padded(n: nat, width: nat, max: nat)
    requires
        n <= max,
    ensures
        parse_uint(dec_padded(n, width), max) == Ok::<nat, crate::text::IntError>(n),
{
    lemma_parse_dec(n, max);
    lemma_dec_digits(n);
    let d = dec(n);
    let s = dec_padded(n, width);
    if d.len() < width {
        let pad = Seq::new((width - d.len()) as nat, |k: int| '0');
        lemma_parse_zeros((width - d.len()) as nat, 0, max);
        lemma_parse_digits_append(pad, d, 0, max);
        assert(s[0] == '0');
    } else {
        assert(is_digit(s[0]));
    }
}

proof fn lemma_find_char_at(s: Seq<char>, c: char, i: int, j: int)
    requires
        0 <= i <= j < s.len(),
        s[j] == c,
        forall|k: int| i <= k < j ==> s[k] != c,
    ensures
        find_char_from(s, c, i) == Some(j),
{
    lemma_find_char_from_bounds(s, c, i);
}

/// A version written as three numerals separated by dots reads as their three numbers.
proof fn lemma_version_of_parts(major: Seq<char>, minor: Seq<char>, patch: Seq<char>)
    requires
        parse_uint(major, u32::MAX as nat) is Ok,
        parse_uint(minor, u32::MAX as nat) is Ok,
        parse_uint(patch, u32::MAX as nat) is Ok,
    ensures
        ({
            let t = (
                parse_uint(major, u32::MAX as nat)->Ok_0 as u32,
                parse_uint(minor, u32::MAX as nat)->Ok_0 as u32,
                parse_uint(patch, u32::MAX as nat)->Ok_0 as u32,
            );
            &&& version_tuple(major + "."@ + minor + "."@ + patch) == Ok::<
                (u32, u32, u32),
                Seq<char>,
            >(t)
            &&& version_tuple(seq!['v'] + (major + "."@ + minor + "."@ + patch)) == Ok::<
                (u32, u32, u32),
                Seq<char>,
            >(t)
        }),
{
    reveal_strlit(".");
    let v = major + "."@ + minor + "."@ + patch;
    lemma_parse_uint_chars(major, u32::MAX as nat);
    lemma_parse_uint_chars(minor, u32::MAX as nat);
    let a = major.len() as int;
    let b = a + 1 + minor.len();
    assert forall|k: int| 0 <= k < a implies v[k] != '.' by {
        assert(v[k] == major[k]);
    }
    assert forall|k: int| a + 1 <= k < b implies v[k] != '.' by {
        assert(v[k] == minor[k - a - 1]);
    }
    assert(v[a] == '.');
    assert(v[b] == '.');
    lemma_find_char_at(v, '.', 0, a);
    lemma_find_char_at(v, '.', a + 1, b);
    assert(v.take(a) =~= major);
    assert(v.subrange(a + 1, b) =~= minor);
    assert(v.skip(b + 1) =~= patch);
    assert(major[0] != 'v');
    assert(strip_v(v) == v);
    assert((seq!['v'] + v).drop_first() =~= v);
}

/// Four digits read as a number below ten thousand.
proof fn lemma_four_digits(patch: Seq<char>) -> (p: nat)
    requires
        patch.len() == 4,
        forall|i: int| 0 <= i < 4 ==> is_digit(#[trigger] patch[i]),
    ensures
        parse_uint(patch, u32::MAX as nat) == Ok::<nat, crate::text::IntError>(p),
        p <= 9999,
{
    reveal_with_fuel(parse_digits, 5);
    let d1 = patch.drop_first();
    let d2 = d1.drop_first();
    let d3 = d2.drop_first();
    assert(d3.drop_first() =~= Seq::<char>::empty());
    assert(d1[0] == patch[1]);
    assert(d2[0] == patch[2]);
    assert(d3[0] == patch[3]);
    assert(is_digit(patch[0]) && is_digit(patch[1]) && is_digit(patch[2]) && is_digit(patch[3]));
    parse_uint(patch, u32::MAX as nat)->Ok_0
}

/// A text that ends in four ASCII digits: its last four bytes are those digits, and it has at
/// least four bytes.
proof fn lemma_ends_in_four_digits(head: Seq<char>, patch: Seq<char>)
    requires
        patch.len() == 4,
        forall|i: int| 0 <= i < 4 ==> is_digit(#[trigger] patch[i]),
    ensures
        tail_start(head + patch, 4) == Some(head.len() as int),
        byte_len(head + patch) >= 4,
{
    let t = head + patch;
    let n = t.len() as int;
    assert forall|i: int| n - 4 <= i < n implies char_width(#[trigger] t[i]) == 1 by {
        assert(t[i] == patch[i - (n - 4)]);
    }
    let t1 = t.take(n - 1);
    let t2 = t.take(n - 2);
    let t3 = t.take(n - 3);
    let t4 = t.take(n - 4);
    assert(t.drop_last() =~= t1);
    assert(t1.drop_last() =~= t2);
    assert(t2.drop_last() =~= t3);
    assert(t3.drop_last() =~= t4);
    assert(t1.last() == t[n - 2]);
    assert(t2.last() == t[n - 3]);
    assert(t3.last() == t[n - 4]);
    assert(tail_start(t4, 0) == Some(n - 4));
    assert(tail_start(t3, 1) == Some(n - 4));
    assert(tail_start(t2, 2) == Some(n - 4));
    assert(tail_start(t1, 3) == Some(n - 4));
    lemma_byte_len_push(t1, t[n - 1]);
    lemma_byte_len_push(t2, t[n - 2]);
    lemma_byte_len_push(t3, t[n - 3]);
    lemma_byte_len_push(t4, t[n - 4]);
    assert(t1.push(t[n - 1]) =~= t);
    assert(t2.push(t[n - 2]) =~= t1);
    assert(t3.push(t[n - 3]) =~= t2);
    assert(t4.push(t[n - 4]) =~= t3);
}

/// The patch of a version written with four digits: a tag `<asset>-v<major>.<minor>.<dddd>`.
pub open spec fn four_digit_tag(asset_id: Seq<char>, major: Seq<char>, minor: Seq<char>, patch: Seq<
    char,
>) -> Seq<char> {
    asset_id + "-v"@ + major + "."@ + minor + "."@ + patch
}

/// The automatic version increment: the tag that follows `<asset>-v<major>.<minor>.<dddd>`
/// (a patch of four digits) is the same asset at the same major and minor version with the
/// patch one higher, written with at least four digits; both tags read back as that asset.
pub proof fn lemma_next_tag_increments_patch(
    any_id: Seq<char>,
    asset_id: Seq<char>,
    major: Seq<char>,
    minor: Seq<char>,
    patch: Seq<char>,
)
    requires
        parse_uint(major, u32::MAX as nat) is Ok,
        parse_uint(minor, u32::MAX as nat) is Ok,
        patch.len() == 4,
        forall|i: int| 0 <= i < 4 ==> is_digit(#[trigger] patch[i]),
    ensures
        ({
            let latest = four_digit_tag(asset_id, major, minor, patch);
            let old_version = major + "."@ + minor + "."@ + patch;
            let (ma, mi, p) = version_tuple(old_version)->Ok_0;
            let new_version = major + "."@ + minor + "."@ + dec_padded((p + 1) as nat, 4);
            &&& version_tuple(old_version) is Ok
            &&& tag_parts(latest) == Some((asset_id, seq!['v'] + old_version))
            &&& next_tag_of(any_id, Ok(latest)) == Ok::<Seq<char>, Seq<char>>(
                asset_id + "-v"@ + new_version,
            )
            &&& tag_parts(asset_id + "-v"@ + new_version) == Some(
                (asset_id, seq!['v'] + new_version),
            )
            &&& version_tuple(seq!['v'] + new_version) == Ok::<(u32, u32, u32), Seq<char>>(
                (ma, mi, (p + 1) as u32),
            )
        }),
{
    reveal_strlit("-v");
    reveal_strlit(".");
    let latest = four_digit_tag(asset_id, major, minor, patch);
    let old_version = major + "."@ + minor + "."@ + patch;
    let p = lemma_four_digits(patch);
    lemma_version_of_parts(major, minor, patch);
    lemma_stamped_tag_splits(asset_id, old_version);
    assert(latest =~= asset_id + "-v"@ + old_version);
    let n = latest.len() as int;
    assert(latest =~= latest.take(n - 4) + patch);
    lemma_ends_in_four_digits(latest.take(n - 4), patch);
    assert(latest.skip(n - 4) =~= patch);
    // The new patch reads back as one more.
    let digits = dec_padded(p + 1, 4);
    lemma_parse_dec_padded(p + 1, 4, u32::MAX as nat);
    let new_version = major + "."@ + minor + "."@ + digits;
    assert(latest.take(n - 4) + digits =~= asset_id + "-v"@ + new_version);
    lemma_version_of_parts(major, minor, digits);
    lemma_stamped_tag_splits(asset_id, new_version);
}

proof fn lemma_parse_uint_dec(n: nat)
    requires
        n <= u32::MAX,
    ensures
        parse_uint(dec(n), u32::MAX as nat) == Ok::<nat, crate::text::IntError>(n),
{
    lemma_parse_dec(n, u32::MAX as nat);
    lemma_dec_digits(n);
    assert(dec(n).len() > 0);
    assert(is_digit(dec(n)[0]));
}

/// Writing three numbers as a version `<a>.<b>.<c>` and reading it back gives the same
/// numbers, with or without a leading `'v'`.
pub proof fn lemma_version_roundtrip(a: u32, b: u32, c: u32)
    ensures
        version_tuple(dec(a as nat) + "."@ + dec(b as nat) + "."@ + dec(c as nat)) == Ok::<
            (u32, u32, u32),
            Seq<char>,
        >((a, b, c)),
        version_tuple(seq!['v'] + (dec(a as nat) + "."@ + dec(b as nat) + "."@ + dec(c as nat)))
            == Ok::<(u32, u32, u32), Seq<char>>((a, b, c)),
{
    lemma_parse_uint_dec(a as nat);
    lemma_parse_uint_dec(b as nat);
    lemma_parse_uint_dec(c as nat);
    lemma_version_of_parts(dec(a as nat), dec(b as nat), dec(c as nat));
}

} // verus!
