use asset_version_control::config::AssetValues;
use asset_version_control::database::commands::{
    clear_new_path_query, delete_link_query, format_asset_id, populate_batches, render_cell,
    select_asset_ids_query, select_assetid_by_path_query, select_current_paths_query,
    select_old_path_query, table_entries_query, upsert_asset_query, upsert_link_query, SqlCell,
};
use asset_version_control::database::helper::{
    missing_asset_positions, sanitize_name, select_counter_query, update_counter_query,
};

fn asset(i: usize) -> AssetValues {
    AssetValues {
        asset_id: format!("id{}", i),
        current_name: format!("name{}", i),
        current_path: format!("path{}", i),
        log_path: format!("log{}", i),
        created_at: format!("date{}", i),
    }
}

#[test]
fn sanitized_names() {
    assert_eq!(sanitize_name("My Chair.v2.blend"), "my_chair");
    assert_eq!(sanitize_name("a-b.c"), "a_b");
    assert_eq!(sanitize_name(".hidden"), "");
    assert_eq!(sanitize_name("ABC"), "abc");
    assert_eq!(sanitize_name("\u{d6}lstuhl.fbx"), "\u{f6}lstuhl");
    assert_eq!(sanitize_name("\u{130}"), "i_");
}

#[test]
fn sanitizing_twice_changes_nothing() {
    for name in ["Hello World!.txt", "x.y", "Chair_2.blend", "  "] {
        let once = sanitize_name(name);
        assert_eq!(sanitize_name(&once), once);
        assert!(once.chars().all(|c| c == '_' || c.is_ascii_digit() || c.is_ascii_lowercase()));
    }
}

#[test]
fn asset_ids() {
    assert_eq!(format_asset_id("Chair.blend", 7), "chair_7");
    assert_eq!(format_asset_id("Chair.blend", -3), "chair_-3");
    assert_eq!(format_asset_id("Big Table", 1000), "big_table_1000");
}

#[test]
fn counter_queries() {
    assert_eq!(select_counter_query(), "SELECT next_asset_id FROM counters WHERE id = ?1;");
    assert_eq!(update_counter_query(), "UPDATE counters SET next_asset_id = ?1 WHERE id = ?2;");
}

#[test]
fn table_queries() {
    assert_eq!(table_entries_query("assets"), "SELECT * FROM \"assets\"");
    assert_eq!(table_entries_query("we\"ird"), "SELECT * FROM \"we\"\"ird\"");
    assert_eq!(
        upsert_asset_query(),
        "INSERT INTO assets (asset_id, current_name, current_path, log_path, created_at) VALUES (?1, ?2, ?3, ?4, ?5)\n         ON CONFLICT(asset_id) DO UPDATE SET current_name = ?2, current_path = ?3, log_path = ?4;"
    );
    assert_eq!(select_assetid_by_path_query(), "SELECT asset_id FROM assets WHERE current_path = ?1");
    assert_eq!(select_current_paths_query(), "SELECT current_path FROM assets;");
    assert_eq!(select_asset_ids_query(), "SELECT asset_id FROM assets;");
}

#[test]
fn link_queries() {
    assert_eq!(clear_new_path_query(), "DELETE FROM link WHERE new_path = ?1;");
    assert_eq!(
        upsert_link_query(),
        "INSERT INTO link (old_path, new_path) VALUES (?1, ?2)\n         ON CONFLICT(old_path) DO UPDATE SET new_path = ?2;"
    );
    assert_eq!(delete_link_query(), "DELETE FROM link WHERE new_path = ?1");
    assert_eq!(select_old_path_query(), "SELECT old_path FROM link WHERE new_path = ?1");
}

#[test]
fn cells_as_text() {
    assert_eq!(render_cell(SqlCell::Null), "");
    assert_eq!(render_cell(SqlCell::Text("hi".to_string())), "hi");
    assert_eq!(render_cell(SqlCell::Integer(-42)), "-42");
    assert_eq!(render_cell(SqlCell::Integer(i64::MIN)), "-9223372036854775808");
    assert_eq!(render_cell(SqlCell::Integer(0)), "0");
    assert_eq!(render_cell(SqlCell::Real("1.5".to_string())), "1.5");
    assert_eq!(render_cell(SqlCell::Blob(12)), "<BLOB 12 B>");
}

#[test]
fn batches_of_missing_assets() {
    assert!(populate_batches(&vec![]).is_empty());
    let two = populate_batches(&vec![asset(0), asset(1)]);
    assert_eq!(two.len(), 1);
    assert_eq!(
        two[0].query,
        "INSERT INTO assets (asset_id, current_name, current_path, log_path, created_at) VALUES (?1, ?2, ?3, ?4, ?5), (?6, ?7, ?8, ?9, ?10);"
    );
    assert_eq!(
        two[0].params,
        vec!["id0", "name0", "path0", "log0", "date0", "id1", "name1", "path1", "log1", "date1"]
    );
}

#[test]
fn batches_cover_all_assets_in_order() {
    let assets: Vec<AssetValues> = (0..250).map(asset).collect();
    let batches = populate_batches(&assets);
    assert_eq!(batches.len(), 3);
    assert_eq!(batches[0].params.len(), 500);
    assert_eq!(batches[2].params.len(), 250);
    assert!(batches[2].query.ends_with("(?246, ?247, ?248, ?249, ?250);"));
    assert!(batches[0].query.ends_with("(?496, ?497, ?498, ?499, ?500);"));
    let all: Vec<String> = batches.iter().flat_map(|b| b.params.clone()).collect();
    let expected: Vec<String> = assets
        .iter()
        .flat_map(|a| {
            vec![
                a.asset_id.clone(),
                a.current_name.clone(),
                a.current_path.clone(),
                a.log_path.clone(),
                a.created_at.clone(),
            ]
        })
        .collect();
    assert_eq!(all, expected);
}

#[test]
fn assets_missing_from_database() {
    let db = vec!["a".to_string(), "b".to_string()];
    let ids = vec!["b".to_string(), "c".to_string(), "a".to_string(), "d".to_string()];
    assert_eq!(missing_asset_positions(&db, &ids), vec![1, 3]);
    assert!(missing_asset_positions(&db, &vec![]).is_empty());
}
