use asset_version_control::file_system::commands::{entry_action, file_type_label, EntryAction};
use asset_version_control::file_system::pub_helper::{get_log_path, log_file_path};
use asset_version_control::initialize::{
    counter_table_check, create_assets_table_query, create_counters_table_query,
    drop_counters_query, init_counter_row_query, project_subpath, table_count_query,
    validate_counter_query, CounterCheck,
};
use asset_version_control::paths::join_path;

#[test]
fn subpaths_of_the_project() {
    assert_eq!(project_subpath("/proj", ".git"), "/proj/.git");
    assert_eq!(project_subpath("/proj", ".assets.sqlite"), "/proj/.assets.sqlite");
}

#[test]
fn assets_table_is_created_with_its_columns() {
    let expected = "CREATE TABLE IF NOT EXISTS assets (\n            \
asset_id      TEXT PRIMARY KEY,\n            \
current_name      TEXT NOT NULL,\n            \
current_path      TEXT NOT NULL,\n            \
log_path      TEXT NOT NULL,\n            \
created_at      TEXT DEFAULT (strftime('%H:%M:%S', 'now', 'localtime') || '-' || strftime('%d-%m-%Y', 'now', 'localtime'))\n        );";
    assert_eq!(create_assets_table_query(), expected);
}

#[test]
fn counter_table_queries() {
    assert_eq!(
        create_counters_table_query(),
        "CREATE TABLE IF NOT EXISTS counters (\n            id INTEGER PRIMARY KEY CHECK (id = 0),\n            next_asset_id INTEGER NOT NULL\n        );"
    );
    assert_eq!(
        init_counter_row_query(),
        "INSERT OR IGNORE INTO counters (id, next_asset_id) VALUES (0, 1)"
    );
    assert_eq!(
        table_count_query("counters"),
        "SELECT COUNT(*) FROM sqlite_master WHERE type='table' AND name='counters';"
    );
    assert_eq!(validate_counter_query(), "SELECT COUNT(*), MAX(next_asset_id) FROM counters;");
    assert_eq!(drop_counters_query(), "DROP TABLE counters;");
}

#[test]
fn counter_table_verdicts() {
    assert!(matches!(counter_table_check(0, None), CounterCheck::Reinitialise));
    assert!(matches!(counter_table_check(1, Some(7)), CounterCheck::Valid(7)));
    match counter_table_check(3, Some(7)) {
        CounterCheck::Invalid(m) => {
            assert_eq!(m, "Database corruption: 'counters' table has 3 rows (expected exactly 1).")
        }
        _ => panic!("three rows are corrupt"),
    }
    match counter_table_check(1, Some(0)) {
        CounterCheck::Invalid(m) => {
            assert_eq!(m, "Validation failed: next_asset_id is not positive (0)")
        }
        _ => panic!("zero is not positive"),
    }
    match counter_table_check(1, Some(-4)) {
        CounterCheck::Invalid(m) => {
            assert_eq!(m, "Validation failed: next_asset_id is not positive (-4)")
        }
        _ => panic!("a negative counter is refused"),
    }
    match counter_table_check(1, None) {
        CounterCheck::Invalid(m) => assert_eq!(m, "Validation failed: next_asset_id is NULL."),
        _ => panic!("a missing value is refused"),
    }
}

#[test]
fn log_paths() {
    assert_eq!(get_log_path("chair_1"), ".logs/chair_1.md");
    assert_ne!(get_log_path("chair_1"), get_log_path("chair_2"));
    assert_eq!(log_file_path("/proj", "chair_1"), "/proj/.logs/chair_1.md");
    assert_eq!(log_file_path("/proj/", "x_3"), "/proj/.logs/x_3.md");
    assert_eq!(log_file_path("", "x_3"), ".logs/x_3.md");
}

#[test]
fn joining_paths() {
    assert_eq!(join_path("/a", "b"), "/a/b");
    assert_eq!(join_path("/a/", "b"), "/a/b");
    assert_eq!(join_path("", "b"), "b");
    assert_eq!(join_path("/a", "/b"), "/b");
    assert_eq!(join_path("/a", ""), "/a/");
}

#[test]
fn entries_shown_in_file_views() {
    assert_eq!(entry_action(".git", true), EntryAction::Skip);
    assert_eq!(entry_action(".hidden.txt", false), EntryAction::Skip);
    assert_eq!(entry_action("models", true), EntryAction::Descend);
    assert_eq!(entry_action("chair.blend", false), EntryAction::Keep);
    assert_eq!(entry_action("", false), EntryAction::Keep);
}

#[test]
fn type_labels() {
    assert_eq!(file_type_label(true, Some("png")), "dir");
    assert_eq!(file_type_label(false, Some("png")), "png");
    assert_eq!(file_type_label(false, None), "file");
}
