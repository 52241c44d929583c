use asset_version_control::config::CommitMetadata;
use asset_version_control::string_formating::commands::stamp_version;
use asset_version_control::string_formating::helper;
use asset_version_control::string_formating::helper::{
    get_assetid_version_path, get_assetid_version_tag, get_relative_directory_path,
    parse_version_tuple,
};
use asset_version_control::string_formating::pub_helper;
use asset_version_control::string_formating::pub_helper::{get_assetid_version, get_version};

fn meta() -> CommitMetadata {
    CommitMetadata {
        commit_hash: "0123456789abcdef".to_string(),
        abbreviated_hash: "0123456".to_string(),
        author_name: "Alice".to_string(),
        author_date: "2024-05-12T10:00:00+02:00".to_string(),
        subject: "Update chair".to_string(),
        body: "Fixed the legs".to_string(),
    }
}

#[test]
fn tag_splits_at_last_separator() {
    let (a, v) = get_assetid_version_tag("chair_3-v00.00.0002").unwrap();
    assert_eq!(a, "chair_3");
    assert_eq!(v, "v00.00.0002");
    let (a, v) = get_assetid_version_tag("a-v1-v2").unwrap();
    assert_eq!(a, "a-v1");
    assert_eq!(v, "v2");
    let (a, v) = get_assetid_version_tag("-v").unwrap();
    assert_eq!(a, "");
    assert_eq!(v, "v");
}

#[test]
fn tag_without_separator_is_refused() {
    assert_eq!(get_assetid_version_tag("nodash").unwrap_err(), "Tag format is invalid: nodash");
    assert_eq!(get_assetid_version_tag("a-b-c").unwrap_err(), "Tag format is invalid: a-b-c");
    assert_eq!(get_version("plain").unwrap_err(), "Tag format is invalid: plain");
}

#[test]
fn version_of_tag() {
    assert_eq!(get_version("chair_3-v00.00.0002").unwrap(), "v00.00.0002");
    assert_eq!(get_version("x-v1-v9.9.9").unwrap(), "v9.9.9");
}

#[test]
fn version_tuple_reads_numbers() {
    assert_eq!(parse_version_tuple("v1.2.3").unwrap(), (1, 2, 3));
    assert_eq!(parse_version_tuple("1.2.3").unwrap(), (1, 2, 3));
    assert_eq!(parse_version_tuple("v00.00.0001").unwrap(), (0, 0, 1));
    assert_eq!(parse_version_tuple("+1.2.3").unwrap(), (1, 2, 3));
    assert_eq!(parse_version_tuple("1.2.4294967295").unwrap(), (1, 2, 4294967295));
}

#[test]
fn version_tuple_errors() {
    assert_eq!(parse_version_tuple("1.2").unwrap_err(), "malformed version: 1.2");
    assert_eq!(parse_version_tuple("v1.2").unwrap_err(), "malformed version: 1.2");
    assert_eq!(parse_version_tuple("").unwrap_err(), "malformed version: ");
    assert_eq!(parse_version_tuple("a.2.3").unwrap_err(), "bad major: a");
    assert_eq!(parse_version_tuple("1.x.3").unwrap_err(), "bad minor: x");
    assert_eq!(parse_version_tuple("1..3").unwrap_err(), "bad minor: ");
    assert_eq!(parse_version_tuple("1.2.3.4").unwrap_err(), "bad patch: 3.4");
    assert_eq!(parse_version_tuple("1.2.4294967296").unwrap_err(), "bad patch: 4294967296");
    assert_eq!(parse_version_tuple("vv1.2.3").unwrap_err(), "bad major: v1");
    assert_eq!(parse_version_tuple("-1.2.3").unwrap_err(), "bad major: -1");
    assert_eq!(parse_version_tuple("+.2.3").unwrap_err(), "bad major: +");
}

#[test]
fn stamp_version_builds_tag() {
    assert_eq!(stamp_version("chair_3", "00.00.0002").unwrap(), "chair_3-v00.00.0002");
    assert_eq!(stamp_version("chair_3", "v1.2.3").unwrap(), "chair_3-vv1.2.3");
    assert_eq!(stamp_version("chair_3", "1.2").unwrap_err(), "malformed version: 1.2");
}

#[test]
fn stamped_tag_splits_back() {
    for (asset, version) in [("chair_3", "00.00.0002"), ("a-v1", "1.2.3"), ("x-", "v4.5.6")] {
        let tag = stamp_version(asset, version).unwrap();
        let (a, v) = get_assetid_version_tag(&tag).unwrap();
        assert_eq!(a, asset);
        assert_eq!(v, format!("v{}", version));
        assert_eq!(get_version(&tag).unwrap(), v);
    }
}

#[test]
fn log_entry_layouts() {
    let expected = "## v00.00.0002\n- **Hash (full):** 0123456789abcdef\n- **Hash (short):** 0123456\n- **Author:** Alice\n- **Created At:** 2024-05-12T10:00:00+02:00\n- **Summary:** Update chair\n\n- **Message:**\nFixed the legs\n\n---\n\n\n";
    assert_eq!(helper::format_commit_metadata(meta(), "v00.00.0002"), expected);
    let expected = "## v00.00.0002\n- **Hash (full):** 0123456789abcdef\n- **Hash (short):** 0123456\n- **Author:** Alice\n- **Created At:** 2024-05-12T10:00:00+02:00\n- **Summary:** Update chair\n\n**Message:**\nFixed the legs\n\n---\n\n\n";
    assert_eq!(pub_helper::format_commit_metadata(meta(), "v00.00.0002"), expected);
}

#[test]
fn asset_and_version_from_git_log() {
    let out = "1a2b3c4 (HEAD -> main, tag: chair_3-v00.00.0002) Update chair\n";
    let (a, v) = get_assetid_version_path(out).unwrap();
    assert_eq!(a, "chair_3");
    assert_eq!(v, "v00.00.0002");
    let (a, v) = get_assetid_version(out).unwrap();
    assert_eq!(a, "chair_3");
    assert_eq!(v, "v00.00.0002");
    assert_eq!(get_assetid_version("").unwrap_err(), "No tag");
    assert_eq!(get_assetid_version("1a2b3c4 Update chair\n").unwrap_err(), "No tag");
    assert_eq!(
        get_assetid_version("1a2b3c4 (tag: release) x\n").unwrap_err(),
        "Tag format is invalid: release"
    );
}

#[test]
fn relative_directory_of_changed_file() {
    assert_eq!(get_relative_directory_path("/root/proj/a/b/c.txt", "/root/proj").unwrap(), "a/b");
    assert_eq!(get_relative_directory_path("/root/proj/c.txt", "/root/proj").unwrap(), "");
    assert_eq!(get_relative_directory_path("/root/proj/c.txt", "/root/proj/").unwrap(), "");
    assert_eq!(
        get_relative_directory_path("/other/x", "/root/proj").unwrap_err(),
        "Path is not inside root: prefix not found"
    );
    assert_eq!(
        get_relative_directory_path("/root/proj", "/root/proj").unwrap_err(),
        "Failed to get parent directory"
    );
}

#[test]
fn versions_read_back_as_written() {
    for (a, b, c) in [(0, 0, 1), (1, 2, 3), (10, 0, 9999), (u32::MAX, 7, u32::MAX)] {
        assert_eq!(helper::parse_version_tuple(&format!("v{}.{}.{}", a, b, c)), Ok((a, b, c)));
        assert_eq!(helper::parse_version_tuple(&format!("{}.{}.{}", a, b, c)), Ok((a, b, c)));
    }
}
