//! Setting a project up: where its folders and database go, the tables it creates, and the
//! verdict on a counter table found in an existing database.
use vstd::prelude::*;

use crate::config::{
    ASSETS_TABLE, ASSET_ID, COUNTER_ID, COUNTER_TABLE, CREATED_AT, CURRENT_NAME, CURRENT_PATH, ID,
    LOG_PATH_SQL, NEXT_ASSET_ID,
};
use crate::text::{concat3, i64_to_dec, int_dec};

verus! {

/// Where an entry of the project goes: `<root_path>/<name>`.
pub fn project_subpath(root_path: &str, name: &str) -> (p: String)
    ensures
        p@ == root_path@ + "/"@ + name@,
{
    concat3(root_path, "/", name)
}

/// The query that creates the assets table.
pub fn create_assets_table_query() -> (q: String)
    ensures
        q@ == "CREATE TABLE IF NOT EXISTS "@ + ASSETS_TABLE@ + " (\n            "@ + ASSET_ID@
            + "      TEXT PRIMARY KEY,\n            "@ + CURRENT_NAME@
            + "      TEXT NOT NULL,\n            "@ + CURRENT_PATH@
            + "      TEXT NOT NULL,\n            "@ + LOG_PATH_SQL@
            + "      TEXT NOT NULL,\n            "@ + CREATED_AT@
            + "      TEXT DEFAULT (strftime('%H:%M:%S', 'now', 'localtime') || '-' || strftime('%d-%m-%Y', 'now', 'localtime'))\n        );"@,
{
    let mut q = String::from_str("CREATE TABLE IF NOT EXISTS ");
    q.append(ASSETS_TABLE);
    q.append(" (\n            ");
    q.append(ASSET_ID);
    q.append("      TEXT PRIMARY KEY,\n            ");
    q.append(CURRENT_NAME);
    q.append("      TEXT NOT NULL,\n            ");
    q.append(CURRENT_PATH);
    q.append("      TEXT NOT NULL,\n            ");
    q.append(LOG_PATH_SQL);
    q.append("      TEXT NOT NULL,\n            ");
    q.append(CREATED_AT);
    q.append(
        "      TEXT DEFAULT (strftime('%H:%M:%S', 'now', 'localtime') || '-' || strftime('%d-%m-%Y', 'now', 'localtime'))\n        );",
    );
    q
}

/// The query that creates the counter table, whose only row has the id `COUNTER_ID`.
pub fn create_counters_table_query() -> (q: String)
    ensures
        q@ == "CREATE TABLE IF NOT EXISTS "@ + COUNTER_TABLE@ + " (\n            "@ + ID@
            + " INTEGER PRIMARY KEY CHECK ("@ + ID@ + " = "@ + int_dec(COUNTER_ID as int)
            + "),\n            "@ + NEXT_ASSET_ID@ + " INTEGER NOT NULL\n        );"@,
{
    let mut q = String::from_str("CREATE TABLE IF NOT EXISTS ");
    q.append(COUNTER_TABLE);
    q.append(" (\n            ");
    q.append(ID);
    q.append(" INTEGER PRIMARY KEY CHECK (");
    q.append(ID);
    q.append(" = ");
    let d = i64_to_dec(COUNTER_ID as i64);
    q.append(d.as_str());
    q.append("),\n            ");
    q.append(NEXT_ASSET_ID);
    q.append(" INTEGER NOT NULL\n        );");
    q
}

/// The query that puts the counter's row in place, starting at 1, unless it is there.
pub fn init_counter_row_query() -> (q: String)
    ensures
        q@ == "INSERT OR IGNORE INTO "@ + COUNTER_TABLE@ + " ("@ + ID@ + ", "@ + NEXT_ASSET_ID@
            + ") VALUES (0, 1)"@,
{
    let mut q = String::from_str("INSERT OR IGNORE INTO ");
    q.append(COUNTER_TABLE);
    q.append(" (");
    q.append(ID);
    q.append(", ");
    q.append(NEXT_ASSET_ID);
    q.append(") VALUES (0, 1)");
    q
}

/// The query that counts the tables of a given name.
pub fn table_count_query(table: &str) -> (q: String)
    ensures
        q@ == "SELECT COUNT(*) FROM sqlite_master WHERE type='table' AND name='"@ + table@
            + "';"@,
{
    concat3("SELECT COUNT(*) FROM sqlite_master WHERE type='table' AND name='", table, "';")
}

/// The query that reads the number of rows of the counter table and its largest value.
pub fn validate_counter_query() -> (q: String)
    ensures
        q@ == "SELECT COUNT(*), MAX("@ + NEXT_ASSET_ID@ + ") FROM "@ + COUNTER_TABLE@ + ";"@,
{
    let mut q = String::from_str("SELECT COUNT(*), MAX(");
    q.append(NEXT_ASSET_ID);
    q.append(") FROM ");
    q.append(COUNTER_TABLE);
    q.append(";");
    q
}

/// The query that drops the counter table.
pub fn drop_counters_query() -> (q: String)
    ensures
        q@ == "DROP TABLE "@ + COUNTER_TABLE@ + ";"@,
{
    concat3("DROP TABLE ", COUNTER_TABLE, ";")
}

/// What to do about the counter table of an existing database.
pub enum CounterCheck {
    /// The table holds its one row with this positive value.
    Valid(i64),
    /// The table is empty: drop it and create it again.
    Reinitialise,
    /// The table cannot be used; the message says why.
    Invalid(String),
}

/// The verdict on a counter table from its number of rows and its largest value (if any).
pub open spec fn counter_verdict(row_count: i64, counter_value: Option<i64>) -> Result<
    Option<i64>,
    Seq<char>,
> {
    if row_count == 0 {
        Ok(None)
    } else if row_count > 1 {
        Err("Database corruption: '"@ + COUNTER_TABLE@ + "' table has "@ + int_dec(
            row_count as int,
        ) + " rows (expected exactly 1)."@)
    } else {
        match counter_value {
            Some(v) => if v > 0 {
                Ok(Some(v))
            } else {
                Err("Validation failed: "@ + NEXT_ASSET_ID@ + " is not positive ("@ + int_dec(
                    v as int,
                ) + ")"@)
            },
            None => Err("Validation failed: "@ + NEXT_ASSET_ID@ + " is NULL."@),
        }
    }
}

/// Judges an existing counter table: an empty one is to be created again, one with more than
/// one row is corrupt, and its one value must be there and be positive.
pub fn counter_table_check(row_count: i64, counter_value: Option<i64>) -> (r: CounterCheck)
    ensures
        match counter_verdict(row_count, counter_value) {
            Ok(None) => r is Reinitialise,
            Ok(Some(v)) => r == CounterCheck::Valid(v),
            Err(m) => r matches CounterCheck::Invalid(e) && e@ == m,
        },
{
    if row_count == 0 {
        CounterCheck::Reinitialise
    } else if row_count > 1 {
        let mut m = String::from_str("Database corruption: '");
        m.append(COUNTER_TABLE);
        m.append("' table has ");
        let d = i64_to_dec(row_count);
        m.append(d.as_str());
        m.append(" rows (expected exactly 1).");
        CounterCheck::Invalid(m)
    } else {
        match counter_value {
            Some(v) => {
                if v > 0 {
                    CounterCheck::Valid(v)
                } else {
                    let mut m = String::from_str("Validation failed: ");
                    m.append(NEXT_ASSET_ID);
                    m.append(" is not positive (");
                    let d = i64_to_dec(v);
                    m.append(d.as_str());
                    m.append(")");
                    CounterCheck::Invalid(m)
                }
            },
            None => {
                let mut m = String::from_str("Validation failed: ");
                m.append(NEXT_ASSET_ID);
                m.append(" is NULL.");
                CounterCheck::Invalid(m)
            },
        }
    }
}

/// How a counter table is judged, by its rows: an empty table is created again; a table of
/// more than one row is refused; a table of one row is valid exactly when that row holds a
/// positive value, which is then the counter (the row `(0, 1)` that a new project starts
/// with included), and refused when the value is zero, negative or missing.
pub proof fn lemma_counter_row_judged(rows: i64, value: Option<i64>)
    ensures
        rows == 0 ==> counter_verdict(rows, value) == Ok::<Option<i64>, Seq<char>>(None),
        rows > 1 ==> counter_verdict(rows, value) is Err,
        rows == 1 ==> (counter_verdict(rows, value) is Ok <==> (value matches Some(x) && x > 0)),
        rows == 1 && (value matches Some(x) && x > 0) ==> counter_verdict(rows, value) == Ok::<
            Option<i64>,
            Seq<char>,
        >(value),
        counter_verdict(1, Some(1i64)) == Ok::<Option<i64>, Seq<char>>(Some(1i64)),
{
}

} // verus!
