use asset_version_control::config::CommitMetadata;
use asset_version_control::string_formating::pub_helper::format_commit_metadata;
use asset_version_control::log_manager::helper::{find_insert_position, get_missing_version};

fn tags(list: &[&str]) -> Vec<String> {
    list.iter().map(|t| t.to_string()).collect()
}

#[test]
fn versions_missing_from_a_log() {
    let log = "# chair\n## v00.00.0001\nfirst\n## v00.00.0003\nthird\n";
    let all = tags(&["chair_1-v00.00.0001", "chair_1-v00.00.0002", "chair_1-v00.00.0003"]);
    assert_eq!(get_missing_version(log, &all), Ok(vec!["v00.00.0002".to_string()]));
}

#[test]
fn heading_must_end_its_line() {
    // "## v1.0.1" is no heading of "v1.0.10" and the other way round.
    let log = "## v1.0.10\n";
    let all = tags(&["a-v1.0.1", "a-v1.0.10"]);
    assert_eq!(get_missing_version(log, &all), Ok(vec!["v1.0.1".to_string()]));
}

#[test]
fn missing_versions_keep_tag_order() {
    let all = tags(&["a-v0.0.3", "a-v0.0.1", "a-v0.0.2"]);
    assert_eq!(
        get_missing_version("", &all),
        Ok(vec!["v0.0.3".to_string(), "v0.0.1".to_string(), "v0.0.2".to_string()])
    );
    assert_eq!(get_missing_version("anything", &Vec::new()), Ok(Vec::new()));
}

#[test]
fn first_malformed_tag_is_reported() {
    let all = tags(&["a-v0.0.1", "broken", "also-broken"]);
    assert_eq!(
        get_missing_version("", &all),
        Err("Tag format is invalid: broken".to_string())
    );
}

#[test]
fn entry_goes_before_the_first_later_version() {
    let log = "## v00.00.0001\nx\n## v00.00.0003\ny\n";
    assert_eq!(find_insert_position(log, "v00.00.0002"), Ok(17));
    assert_eq!(find_insert_position(log, "v00.00.0000"), Ok(0));
}

#[test]
fn entry_goes_at_the_end_when_it_is_latest() {
    let log = "## v00.00.0001\nx\n## v00.00.0003\ny\n";
    assert_eq!(find_insert_position(log, "v00.00.0004"), Ok(log.len()));
    // An equal version is not later: the entry goes after it.
    assert_eq!(find_insert_position(log, "v00.00.0003"), Ok(log.len()));
    assert_eq!(find_insert_position("", "v1.2.3"), Ok(0));
    assert_eq!(find_insert_position("no headings here", "1.2.3"), Ok(16));
}

#[test]
fn insert_position_counts_bytes() {
    // 'é' takes two bytes in UTF-8.
    let log = "é\n## v2.0.0\n";
    assert_eq!(find_insert_position(log, "v1.0.0"), Ok(3));
    assert_eq!(find_insert_position(log, "v3.0.0"), Ok(log.len()));
}

#[test]
fn insert_position_errors() {
    assert_eq!(
        find_insert_position("## notes\n", "v1.0.0"),
        Err("malformed version: notes".to_string())
    );
    assert_eq!(
        find_insert_position("", "v1.0"),
        Err("malformed version: 1.0".to_string())
    );
    assert_eq!(
        find_insert_position("## v1.x.0\n", "v1.0.0"),
        Err("bad minor: x".to_string())
    );
}

fn heading_versions(log: &str) -> Vec<String> {
    log.lines()
        .filter_map(|l| l.strip_prefix("## "))
        .map(|v| v.trim().to_string())
        .collect()
}

#[test]
fn inserting_entries_keeps_versions_in_order() {
    let mut log = String::from("# vase\n");
    for v in ["v0.0.5", "v0.0.2", "v1.0.0", "v0.0.9", "v0.0.1", "v0.1.0", "v0.0.2"] {
        let p = find_insert_position(&log, v).unwrap();
        log.insert_str(p, &format!("## {}\nnotes é\n", v));
    }
    assert_eq!(
        heading_versions(&log),
        vec!["v0.0.1", "v0.0.2", "v0.0.2", "v0.0.5", "v0.0.9", "v0.1.0", "v1.0.0"]
    );
}

fn meta() -> CommitMetadata {
    CommitMetadata {
        commit_hash: "abcdef0123".to_string(),
        abbreviated_hash: "abcdef0".to_string(),
        author_name: "Ana".to_string(),
        author_date: "2024-05-01T10:00:00+02:00".to_string(),
        subject: "new handle".to_string(),
        body: "longer handle, same base".to_string(),
    }
}

#[test]
fn filling_a_log_leaves_nothing_missing() {
    let all = tags(&["vase_2-v0.0.3", "vase_2-v0.0.1", "vase_2-v0.0.2"]);
    let mut log = format_commit_metadata(meta(), "v0.0.2");
    let missing = get_missing_version(&log, &all).unwrap();
    assert_eq!(missing, vec!["v0.0.3".to_string(), "v0.0.1".to_string()]);
    for v in missing {
        let p = find_insert_position(&log, &v).unwrap();
        log.insert_str(p, &format_commit_metadata(meta(), &v));
    }
    assert_eq!(get_missing_version(&log, &all), Ok(Vec::new()));
    assert_eq!(heading_versions(&log), vec!["v0.0.1", "v0.0.2", "v0.0.3"]);
}

#[test]
fn later_versions_never_go_before_earlier_ones() {
    let log = "## v0.0.1\na\n## v0.0.3\nb\n## v0.1.0\nc\n## v2.0.0\nd\n";
    let versions = ["v0.0.0", "v0.0.1", "v0.0.2", "v0.0.3", "v0.0.9", "v0.1.0", "v1.0.0", "v3.0.0"];
    let positions: Vec<usize> =
        versions.iter().map(|v| find_insert_position(log, v).unwrap()).collect();
    for w in positions.windows(2) {
        assert!(w[0] <= w[1], "{:?}", positions);
    }
    assert_eq!(positions, vec![0, 12, 12, 24, 24, 36, 36, 48]);
}
