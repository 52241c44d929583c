//! The queries behind the database commands, the batches in which missing assets are
//! inserted, and how a stored value is shown.
use vstd::prelude::*;

use crate::config::{
    AssetValues, ASSETS_TABLE, ASSET_ID, CREATED_AT, CURRENT_NAME, CURRENT_PATH, LINK_TABLE,
    LOG_PATH_SQL, NEW_PATH, OLD_PATH,
};
use crate::database::helper::{sanitize_name, sanitized};
use crate::text::{chars_of, dec, i64_to_dec, int_dec, u64_to_dec, views};

verus! {

// ---------------------------------------------------------------------------------------------
// Asset ids
// ---------------------------------------------------------------------------------------------

/// The asset id of a file numbered `next_id`: `<sanitised name>_<next_id>`.
pub fn format_asset_id(filename: &str, next_id: i32) -> (r: String)
    ensures
        r@ == sanitized(filename@) + "_"@ + int_dec(next_id as int),
{
    let mut r = sanitize_name(filename);
    r.append("_");
    let n = i64_to_dec(next_id as i64);
    r.append(n.as_str());
    r
}

// ---------------------------------------------------------------------------------------------
// Reading a table
// ---------------------------------------------------------------------------------------------

/// `s` with each `'"'` doubled, as SQL wants inside a quoted identifier.
pub open spec fn escape_quotes(s: Seq<char>) -> Seq<char>
    decreases s.len(),
{
    if s.len() == 0 {
        seq![]
    } else if s.last() == '"' {
        escape_quotes(s.drop_last()) + seq!['"', '"']
    } else {
        escape_quotes(s.drop_last()).push(s.last())
    }
}

/// The query that reads every row of a table: `SELECT * FROM "<table>"`, with the table's
/// name quoted.
pub fn table_entries_query(table_name: &str) -> (q: String)
    ensures
        q@ == "SELECT * FROM \""@ + escape_quotes(table_name@) + "\""@,
{
    let v = chars_of(table_name);
    let mut q = String::from_str("SELECT * FROM \"");
    let ghost prefix = q@;
    let mut i: usize = 0;
    while i < v.len()
        invariant
            i <= v@.len(),
            v@ == table_name@,
            q@ == prefix + escape_quotes(v@.take(i as int)),
        decreases v@.len() - i,
    {
        assert(v@.take(i + 1).drop_last() =~= v@.take(i as int));
        if v[i] == '"' {
            q.push('"');
            q.push('"');
        } else {
            q.push(v[i]);
        }
        i = i + 1;
    }
    assert(v@.take(v@.len() as int) =~= v@);
    q.append("\"");
    q
}

/// A value read from a table, as the application sees it: a real number comes already
/// written out, since that is floating-point formatting.
pub enum SqlCell {
    Null,
    Text(String),
    Integer(i64),
    Real(String),
    Blob(usize),
}

/// How a stored value is shown in a table: NULL as nothing, text as it is, an integer in
/// decimal, a real as written out, a blob as `<BLOB <n> B>` with its size.
pub open spec fn cell_text(cell: SqlCell) -> Seq<char> {
    match cell {
        SqlCell::Null => seq![],
        SqlCell::Text(t) => t@,
        SqlCell::Integer(n) => int_dec(n as int),
        SqlCell::Real(r) => r@,
        SqlCell::Blob(n) => "<BLOB "@ + dec(n as nat) + " B>"@,
    }
}

/// Shows a stored value as text.
pub fn render_cell(cell: SqlCell) -> (s: String)
    ensures
        s@ == cell_text(cell),
{
    match cell {
        SqlCell::Null => String::new(),
        SqlCell::Text(t) => t,
        SqlCell::Integer(n) => i64_to_dec(n),
        SqlCell::Real(r) => r,
        SqlCell::Blob(n) => {
            let mut s = String::from_str("<BLOB ");
            let d = u64_to_dec(n as u64);
            s.append(d.as_str());
            s.append(" B>");
            s
        },
    }
}

// ---------------------------------------------------------------------------------------------
// Writing assets
// ---------------------------------------------------------------------------------------------

/// The column list of the assets table, as the insert queries name it.
pub open spec fn asset_columns() -> Seq<char> {
    " ("@ + ASSET_ID@ + ", "@ + CURRENT_NAME@ + ", "@ + CURRENT_PATH@ + ", "@ + LOG_PATH_SQL@
        + ", "@ + CREATED_AT@ + ")"@
}

fn append_asset_columns(q: &mut String)
    ensures
        final(q)@ == old(q)@ + asset_columns(),
{
    q.append(" (");
    q.append(ASSET_ID);
    q.append(", ");
    q.append(CURRENT_NAME);
    q.append(", ");
    q.append(CURRENT_PATH);
    q.append(", ");
    q.append(LOG_PATH_SQL);
    q.append(", ");
    q.append(CREATED_AT);
    q.append(")");
}

/// The query that adds one asset, or, when its id is there already, updates its name, path
/// and log path (keeping its creation date).
pub fn upsert_asset_query() -> (q: String)
    ensures
        q@ == "INSERT INTO "@ + ASSETS_TABLE@ + asset_columns()
            + " VALUES (?1, ?2, ?3, ?4, ?5)\n         ON CONFLICT("@ + ASSET_ID@
            + ") DO UPDATE SET "@ + CURRENT_NAME@ + " = ?2, "@ + CURRENT_PATH@ + " = ?3, "@
            + LOG_PATH_SQL@ + " = ?4;"@,
{
    let mut q = String::from_str("INSERT INTO ");
    q.append(ASSETS_TABLE);
    append_asset_columns(&mut q);
    q.append(" VALUES (?1, ?2, ?3, ?4, ?5)\n         ON CONFLICT(");
    q.append(ASSET_ID);
    q.append(") DO UPDATE SET ");
    q.append(CURRENT_NAME);
    q.append(" = ?2, ");
    q.append(CURRENT_PATH);
    q.append(" = ?3, ");
    q.append(LOG_PATH_SQL);
    q.append(" = ?4;");
    q
}

/// The most assets one insert query carries.
pub const BATCH_SIZE: usize = 100;

/// The placeholder for parameter `k`: `?<k>`.
pub open spec fn placeholder(k: nat) -> Seq<char> {
    "?"@ + dec(k)
}

/// The row of parameters `5i+1 ..= 5i+5`: `(?<5i+1>, ?<5i+2>, ?<5i+3>, ?<5i+4>, ?<5i+5>)`.
pub open spec fn values_clause(i: nat) -> Seq<char> {
    "("@ + placeholder(5 * i + 1) + ", "@ + placeholder(5 * i + 2) + ", "@ + placeholder(
        5 * i + 3,
    ) + ", "@ + placeholder(5 * i + 4) + ", "@ + placeholder(5 * i + 5) + ")"@
}

/// The rows of `m` assets, separated by `", "`.
pub open spec fn values_list(m: nat) -> Seq<char>
    decreases m,
{
    if m == 0 {
        seq![]
    } else if m == 1 {
        values_clause(0)
    } else {
        values_list((m - 1) as nat) + ", "@ + values_clause((m - 1) as nat)
    }
}

/// The query that inserts `m` assets at once.
pub open spec fn insert_assets_query(m: nat) -> Seq<char> {
    "INSERT INTO "@ + ASSETS_TABLE@ + asset_columns() + " VALUES "@ + values_list(m) + ";"@
}

/// The five parameters of one asset, in column order.
pub open spec fn asset_fields(a: AssetValues) -> Seq<Seq<char>> {
    seq![a.asset_id@, a.current_name@, a.current_path@, a.log_path@, a.created_at@]
}

/// The parameters of several assets, one asset after the other.
pub open spec fn asset_params(s: Seq<AssetValues>) -> Seq<Seq<char>>
    decreases s.len(),
{
    if s.len() == 0 {
        seq![]
    } else {
        asset_params(s.drop_last()) + asset_fields(s.last())
    }
}

/// One insert query and the parameters it binds.
pub struct InsertBatch {
    pub query: String,
    pub params: Vec<String>,
}

/// The number of batches for `n` assets.
pub open spec fn batch_count(n: nat) -> nat {
    ((n + 99) / 100) as nat
}

/// Where batch `k` of `n` assets ends.
pub open spec fn batch_end(n: nat, k: nat) -> nat {
    if 100 * k + 100 <= n {
        100 * k + 100
    } else {
        n
    }
}

/// Batch `k` of `assets` is the insert query for `assets[100k .. batch_end]` with their
/// parameters.
pub open spec fn batch_ok(assets: Seq<AssetValues>, k: nat, b: InsertBatch) -> bool {
    let lo = 100 * k;
    let hi = batch_end(assets.len(), k);
    &&& b.query@ == insert_assets_query((hi - lo) as nat)
    &&& views(b.params@) == asset_params(assets.subrange(lo as int, hi as int))
}

/// Appends `?<k>` to `q`.
fn append_placeholder(q: &mut String, k: u64)
    ensures
        final(q)@ == old(q)@ + placeholder(k as nat),
{
    q.append("?");
    let d = u64_to_dec(k);
    q.append(d.as_str());
}

/// Appends the row of parameters of asset `i` of a batch.
fn append_values_clause(q: &mut String, i: u64)
    requires
        i < 100,
    ensures
        final(q)@ == old(q)@ + values_clause(i as nat),
{
    q.append("(");
    append_placeholder(q, 5 * i + 1);
    q.append(", ");
    append_placeholder(q, 5 * i + 2);
    q.append(", ");
    append_placeholder(q, 5 * i + 3);
    q.append(", ");
    append_placeholder(q, 5 * i + 4);
    q.append(", ");
    append_placeholder(q, 5 * i + 5);
    q.append(")");
}

fn clone_string(s: &String) -> (r: String)
    ensures
        r@ == s@,
{
    s.clone()
}

/// Appends the five parameters of one asset.
fn push_asset_params(params: &mut Vec<String>, a: &AssetValues)
    ensures
        views(final(params)@) == views(old(params)@) + asset_fields(*a),
{
    params.push(clone_string(&a.asset_id));
    params.push(clone_string(&a.current_name));
    params.push(clone_string(&a.current_path));
    params.push(clone_string(&a.log_path));
    params.push(clone_string(&a.created_at));
    assert(views(params@) =~= views(old(params)@) + asset_fields(*a));
}

/// Appends the row of asset `m` of a batch to the rows of the `m` assets before it.
fn append_next_row(q: &mut String, m: u64)
    requires
        m < 100,
    ensures
        final(q)@ == old(q)@ + if m == 0 {
            values_clause(0)
        } else {
            ", "@ + values_clause(m as nat)
        },
{
    if m > 0 {
        q.append(", ");
    }
    append_values_clause(q, m);
    if m > 0 {
        assert(final(q)@ =~= old(q)@ + (", "@ + values_clause(m as nat)));
    }
}

/// The insert query and parameters for `assets[lo..hi]`.
fn make_batch(assets: &Vec<AssetValues>, lo: usize, hi: usize) -> (b: InsertBatch)
    requires
        lo < hi <= assets@.len(),
        hi - lo <= 100,
    ensures
        b.query@ == insert_assets_query((hi - lo) as nat),
        views(b.params@) == asset_params(assets@.subrange(lo as int, hi as int)),
{
    let mut q = String::from_str("INSERT INTO ");
    q.append(ASSETS_TABLE);
    append_asset_columns(&mut q);
    q.append(" VALUES ");
    let ghost head = q@;
    let mut params: Vec<String> = Vec::new();
    let mut i: usize = lo;
    assert(head + values_list(0) =~= head);
    while i < hi
        invariant
            lo <= i <= hi <= assets@.len(),
            hi - lo <= 100,
            q@ == head + values_list((i - lo) as nat),
            views(params@) == asset_params(assets@.subrange(lo as int, i as int)),
        decreases hi - i,
    {
        let ghost m = (i - lo) as nat;
        let ghost q0 = q@;
        append_next_row(&mut q, (i - lo) as u64);
        proof {
            if m == 0 {
                assert(q@ =~= head + values_list(1));
            } else {
                assert(values_list(m + 1) == values_list(m) + ", "@ + values_clause(m));
                assert(q@ =~= head + values_list(m + 1));
            }
        }
        push_asset_params(&mut params, &assets[i]);
        proof {
            let sub = assets@.subrange(lo as int, i + 1);
            assert(sub.drop_last() =~= assets@.subrange(lo as int, i as int));
            assert(sub.last() == assets@[i as int]);
        }
        i = i + 1;
    }
    q.append(";");
    InsertBatch { query: q, params }
}

/// Splits the assets that are missing from the database into batches of at most a hundred,
/// each an insert query with its parameters, in order.
pub fn populate_batches(assets: &Vec<AssetValues>) -> (r: Vec<InsertBatch>)
    ensures
        r@.len() == batch_count(assets@.len()),
        forall|k: int| 0 <= k < r@.len() ==> batch_ok(assets@, k as nat, #[trigger] r@[k]),
{
    let n = assets.len();
    let mut r: Vec<InsertBatch> = Vec::new();
    let mut lo: usize = 0;
    while lo < n
        invariant
            n == assets@.len(),
            lo <= n,
            lo == (if 100 * r@.len() <= n { 100 * r@.len() } else { n as nat }),
            lo < n ==> lo == 100 * r@.len(),
            lo == n ==> r@.len() == batch_count(n as nat),
            forall|k: int| 0 <= k < r@.len() ==> batch_ok(assets@, k as nat, #[trigger] r@[k]),
        decreases n - lo,
    {
        let hi = if n - lo > BATCH_SIZE {
            lo + BATCH_SIZE
        } else {
            n
        };
        let b = make_batch(assets, lo, hi);
        let ghost k = r@.len();
        r.push(b);
        assert(batch_ok(assets@, k as nat, r@[k as int]));
        lo = hi;
    }
    r
}

/// The parameters of the first `k` batches of `assets`, one batch after the other.
pub open spec fn all_batch_params(assets: Seq<AssetValues>, k: nat) -> Seq<Seq<char>>
    decreases k,
{
    if k == 0 {
        seq![]
    } else {
        all_batch_params(assets, (k - 1) as nat) + asset_params(
            assets.subrange(100 * (k - 1), batch_end(assets.len(), (k - 1) as nat) as int),
        )
    }
}

pub proof fn lemma_asset_params_add(a: Seq<AssetValues>, b: Seq<AssetValues>)
    ensures
        asset_params(a + b) == asset_params(a) + asset_params(b),
    decreases b.len(),
{
    if b.len() == 0 {
        assert(a + b =~= a);
        assert(asset_params(a) + asset_params(b) =~= asset_params(a));
    } else {
        lemma_asset_params_add(a, b.drop_last());
        assert((a + b).drop_last() =~= a + b.drop_last());
        assert((a + b).last() == b.last());
        assert(asset_params(a + b) =~= asset_params(a) + asset_params(b));
    }
}

proof fn lemma_batch_prefix(assets: Seq<AssetValues>, k: nat)
    requires
        k <= batch_count(assets.len()),
    ensures
        all_batch_params(assets, k) == asset_params(
            assets.subrange(0, if 100 * k <= assets.len() { (100 * k) as int } else { assets.len() as int }),
        ),
    decreases k,
{
    let n = assets.len();
    if k == 0 {
        assert(assets.subrange(0, 0) =~= Seq::<AssetValues>::empty());
    } else {
        lemma_batch_prefix(assets, (k - 1) as nat);
        let lo = 100 * (k - 1);
        let hi = batch_end(n, (k - 1) as nat);
        assert(lo <= n);
        lemma_asset_params_add(assets.subrange(0, lo as int), assets.subrange(lo as int, hi as int));
        assert(assets.subrange(0, lo as int) + assets.subrange(lo as int, hi as int)
            =~= assets.subrange(0, hi as int));
    }
}

/// Run one after the other, the batches bind the five values of every asset exactly once,
/// in the order of the assets.
pub proof fn lemma_batches_cover(assets: Seq<AssetValues>)
    ensures
        all_batch_params(assets, batch_count(assets.len())) == asset_params(assets),
{
    lemma_batch_prefix(assets, batch_count(assets.len()));
    assert(assets.subrange(0, assets.len() as int) =~= assets);
}

// ---------------------------------------------------------------------------------------------
// Paths and links
// ---------------------------------------------------------------------------------------------

/// The query that finds the asset id of a path: `SELECT asset_id FROM assets WHERE current_path = ?1`.
pub fn select_assetid_by_path_query() -> (q: String)
    ensures
        q@ == "SELECT "@ + ASSET_ID@ + " FROM "@ + ASSETS_TABLE@ + " WHERE "@ + CURRENT_PATH@
            + " = ?1"@,
{
    let mut q = String::from_str("SELECT ");
    q.append(ASSET_ID);
    q.append(" FROM ");
    q.append(ASSETS_TABLE);
    q.append(" WHERE ");
    q.append(CURRENT_PATH);
    q.append(" = ?1");
    q
}

/// The query that drops any link that claims a new path: `DELETE FROM link WHERE new_path = ?1;`.
pub fn clear_new_path_query() -> (q: String)
    ensures
        q@ == "DELETE FROM "@ + LINK_TABLE@ + " WHERE "@ + NEW_PATH@ + " = ?1;"@,
{
    let mut q = String::from_str("DELETE FROM ");
    q.append(LINK_TABLE);
    q.append(" WHERE ");
    q.append(NEW_PATH);
    q.append(" = ?1;");
    q
}

/// The query that links an old path to a new one, replacing its earlier link.
pub fn upsert_link_query() -> (q: String)
    ensures
        q@ == "INSERT INTO "@ + LINK_TABLE@ + " ("@ + OLD_PATH@ + ", "@ + NEW_PATH@
            + ") VALUES (?1, ?2)\n         ON CONFLICT("@ + OLD_PATH@ + ") DO UPDATE SET "@
            + NEW_PATH@ + " = ?2;"@,
{
    let mut q = String::from_str("INSERT INTO ");
    q.append(LINK_TABLE);
    q.append(" (");
    q.append(OLD_PATH);
    q.append(", ");
    q.append(NEW_PATH);
    q.append(") VALUES (?1, ?2)\n         ON CONFLICT(");
    q.append(OLD_PATH);
    q.append(") DO UPDATE SET ");
    q.append(NEW_PATH);
    q.append(" = ?2;");
    q
}

/// The query that removes the link of a new path: `DELETE FROM link WHERE new_path = ?1`.
pub fn delete_link_query() -> (q: String)
    ensures
        q@ == "DELETE FROM "@ + LINK_TABLE@ + " WHERE "@ + NEW_PATH@ + " = ?1"@,
{
    let mut q = String::from_str("DELETE FROM ");
    q.append(LINK_TABLE);
    q.append(" WHERE ");
    q.append(NEW_PATH);
    q.append(" = ?1");
    q
}

/// The query that lists the paths of all assets: `SELECT current_path FROM assets;`.
pub fn select_current_paths_query() -> (q: String)
    ensures
        q@ == "SELECT "@ + CURRENT_PATH@ + " FROM "@ + ASSETS_TABLE@ + ";"@,
{
    let mut q = String::from_str("SELECT ");
    q.append(CURRENT_PATH);
    q.append(" FROM ");
    q.append(ASSETS_TABLE);
    q.append(";");
    q
}

/// The query that lists the ids of all assets: `SELECT asset_id FROM assets;`.
pub fn select_asset_ids_query() -> (q: String)
    ensures
        q@ == "SELECT "@ + ASSET_ID@ + " FROM "@ + ASSETS_TABLE@ + ";"@,
{
    let mut q = String::from_str("SELECT ");
    q.append(ASSET_ID);
    q.append(" FROM ");
    q.append(ASSETS_TABLE);
    q.append(";");
    q
}

/// The query that finds the old path linked to a new one: `SELECT old_path FROM link WHERE new_path = ?1`.
pub fn select_old_path_query() -> (q: String)
    ensures
        q@ == "SELECT "@ + OLD_PATH@ + " FROM "@ + LINK_TABLE@ + " WHERE "@ + NEW_PATH@
            + " = ?1"@,
{
    let mut q = String::from_str("SELECT ");
    q.append(OLD_PATH);
    q.append(" FROM ");
    q.append(LINK_TABLE);
    q.append(" WHERE ");
    q.append(NEW_PATH);
    q.append(" = ?1");
    q
}

} // verus!
