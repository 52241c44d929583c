use asset_version_control::string_formating::helper::parse_version_tuple;
use asset_version_control::string_formating::helper::get_assetid_version_tag;
use asset_version_control::git::commit::{parse_commit_date, parse_uncommitted};
use asset_version_control::git::diff::{
    find_renames_arg, parse_rename_candidates, restore_step, RestoreStep,
};
use asset_version_control::git::hash::parse_short_hash;
use asset_version_control::git::pub_helper::{
    command_text, filter_committed_files, parse_commit_metadata, GitOutput,
};
use asset_version_control::git::tag::{
    latest_tag_from_list, next_tag, parse_latest_tag, parse_tag_list, tag_pattern,
};

fn out(success: bool, stdout: Result<&str, &str>, stderr: Result<&str, &str>) -> GitOutput {
    GitOutput {
        success,
        stdout: stdout.map(String::from).map_err(String::from),
        stderr: stderr.map(String::from).map_err(String::from),
        stderr_lossy: match stderr {
            Ok(s) => s.to_string(),
            Err(_) => "\u{fffd}".to_string(),
        },
    }
}

#[test]
fn tag_list_and_pattern() {
    assert_eq!(tag_pattern("chair_3"), "chair_3-v*");
    assert_eq!(parse_tag_list("a-v1\nb-v2\n"), vec!["a-v1", "b-v2"]);
    assert_eq!(parse_tag_list("x\r\ny"), vec!["x", "y"]);
    assert_eq!(parse_tag_list("x\n\ny\r"), vec!["x", "", "y\r"]);
    assert!(parse_tag_list("").is_empty());
}

#[test]
fn latest_tag_is_first_line() {
    assert_eq!(latest_tag_from_list("c-v3\nc-v2\n").unwrap(), "c-v3");
    assert_eq!(latest_tag_from_list("").unwrap_err(), "No tag");
}

#[test]
fn latest_tag_of_a_file() {
    assert_eq!(
        parse_latest_tag("1a2b3c4 (HEAD -> main, tag: chair_3-v00.00.0002) Update chair\n").unwrap(),
        "chair_3-v00.00.0002"
    );
    assert_eq!(parse_latest_tag("1a2b3c4 (tag: x-v1, tag: x-v2) m").unwrap(), "x-v1");
    assert_eq!(parse_latest_tag("1a2b (tag:  abc ").unwrap(), "abc");
    assert_eq!(parse_latest_tag("1a2b3c4 Just a message\n").unwrap_err(), "No tag");
    assert_eq!(parse_latest_tag("").unwrap_err(), "No tag");
    assert_eq!(parse_latest_tag("\nsecond (tag: y)").unwrap_err(), "No tag");
}

#[test]
fn next_tag_increments_suffix() {
    assert_eq!(next_tag("chair", Ok("chair-v00.00.0002".to_string())).unwrap(), "chair-v00.00.0003");
    assert_eq!(next_tag("x", Ok("x-v00.00.0999".to_string())).unwrap(), "x-v00.00.1000");
    assert_eq!(next_tag("x", Ok("x-v00.00.9999".to_string())).unwrap(), "x-v00.00.10000");
    assert_eq!(next_tag("x", Ok("x+123".to_string())).unwrap(), "x0124");
}

#[test]
fn next_tag_errors_and_first_tag() {
    assert_eq!(next_tag("x", Ok("abc".to_string())).unwrap_err(), "Tag is too short to parse suffix");
    assert_eq!(
        next_tag("x", Ok("x-v00.00.00a1".to_string())).unwrap_err(),
        "invalid last 4 digit: 00a1"
    );
    assert_eq!(next_tag("x", Ok("a\u{e9}12".to_string())).unwrap_err(), "invalid last 4 digit: \u{e9}12");
    assert_eq!(next_tag("chair", Err("No tag".to_string())).unwrap(), "chair-v00.00.0001");
    assert_eq!(next_tag("chair", Err("boom".to_string())).unwrap_err(), "Git command failed: boom");
}

#[test]
fn outcome_of_a_command() {
    assert_eq!(command_text(out(true, Ok("text"), Ok("")), "P: ").unwrap(), "text");
    assert_eq!(command_text(out(true, Err("bad utf8"), Ok("")), "P: ").unwrap_err(), "bad utf8");
    assert_eq!(command_text(out(false, Ok(""), Ok("fatal")), "P: ").unwrap_err(), "P: fatal");
    assert_eq!(command_text(out(false, Ok(""), Err("bad utf8")), "P: ").unwrap_err(), "bad utf8");
}

#[test]
fn commit_metadata_fields() {
    let m = parse_commit_metadata(
        "0123abcd\u{1f}0123abc\u{1f}Alice\u{1f}2024-05-12T10:00:00+02:00\u{1f}Subject\u{1f}Body\nmore\n",
    )
    .unwrap();
    assert_eq!(m.commit_hash, "0123abcd");
    assert_eq!(m.abbreviated_hash, "0123abc");
    assert_eq!(m.author_name, "Alice");
    assert_eq!(m.author_date, "2024-05-12T10:00:00+02:00");
    assert_eq!(m.subject, "Subject");
    assert_eq!(m.body, "Body");
    let m = parse_commit_metadata("a\u{1f}b\u{1f}c\u{1f}d\u{1f}e\u{1f}f\u{1f}g").unwrap();
    assert_eq!(m.body, "f");
    assert_eq!(parse_commit_metadata("").unwrap_err(), "No commit metadata found");
    assert_eq!(parse_commit_metadata("a\u{1f}b\n").unwrap_err(), "Malformed git log output");
}

#[test]
fn committed_files_without_hidden_components() {
    let files = filter_committed_files(
        "a.txt\n.gitignore\ndir/.hidden/x\n./a\nb/./c\nb/../c\nmodels/chair.blend\n.\n/abs/x\n",
    );
    assert_eq!(files, vec!["a.txt", "b/./c", "models/chair.blend", "/abs/x"]);
}

#[test]
fn uncommitted_files_without_dotted() {
    assert_eq!(parse_uncommitted(".env\nnew.txt\n.logs/x.md\nsub/.x\n"), vec!["new.txt", "sub/.x"]);
    assert!(parse_uncommitted("").is_empty());
}

#[test]
fn commit_date_is_trimmed() {
    assert_eq!(parse_commit_date("  12/05/2024 \n").unwrap(), "12/05/2024");
    assert_eq!(parse_commit_date("\n").unwrap_err(), "Failed to retrieve date for commit");
}

#[test]
fn short_hash_is_trimmed() {
    assert_eq!(parse_short_hash("abc1234\n"), "abc1234");
}

#[test]
fn renames_from_diff() {
    assert_eq!(find_renames_arg(50), "--find-renames=50%");
    assert_eq!(find_renames_arg(0), "--find-renames=0%");
    let c = parse_rename_candidates("R100\told.txt\tnew.txt\nM\tfile.txt\n\nR087\ta\tb\nA\tx\ty\n").unwrap();
    assert_eq!(c.len(), 2);
    assert_eq!((c[0].old_path.as_str(), c[0].new_path.as_str(), c[0].score), ("old.txt", "new.txt", 100));
    assert_eq!((c[1].old_path.as_str(), c[1].new_path.as_str(), c[1].score), ("a", "b", 87));
    assert!(parse_rename_candidates("").unwrap().is_empty());
}

#[test]
fn rename_score_errors() {
    assert_eq!(
        parse_rename_candidates("R\ta\tb").unwrap_err(),
        "Failed to parse score: cannot parse integer from empty string"
    );
    assert_eq!(
        parse_rename_candidates("R300\ta\tb").unwrap_err(),
        "Failed to parse score: number too large to fit in target type"
    );
    assert_eq!(
        parse_rename_candidates("M\tq\nRx\ta\tb").unwrap_err(),
        "Failed to parse score: invalid digit found in string"
    );
}

#[test]
fn restore_retries() {
    match restore_step(1, 100, Ok("x".to_string())) {
        RestoreStep::Finish(Ok(t)) => assert_eq!(t, "x"),
        _ => panic!("expected success"),
    }
    assert!(matches!(restore_step(1, 100, Err("e".to_string())), RestoreStep::RetryAfter(150)));
    match restore_step(100, 100, Err("e".to_string())) {
        RestoreStep::Finish(Err(m)) => assert_eq!(m, "cannot undo git add due to: e"),
        _ => panic!("expected failure"),
    }
}

#[test]
fn next_tag_keeps_the_asset_id() {
    for latest in ["chair_1-v00.00.0009", "my-vase-v1.2.0099", "a-v-v0.0.0001", "x-v9.9.12345"] {
        let next = next_tag("ignored", Ok(latest.to_string())).unwrap();
        let (old_id, _) = get_assetid_version_tag(latest).unwrap();
        let (new_id, _) = get_assetid_version_tag(&next).unwrap();
        assert_eq!(old_id, new_id, "{} -> {}", latest, next);
    }
    assert_eq!(next_tag("c", Ok("chair_1-v00.00.0009".to_string())).unwrap(), "chair_1-v00.00.0010");
    assert_eq!(next_tag("c", Ok("x-v9.9.12345".to_string())).unwrap(), "x-v9.9.12346");
}

#[test]
fn next_tag_is_the_next_patch() {
    use_next_patch("chair_1-v01.02.0009", (1, 2, 10));
    use_next_patch("chair_1-v00.00.9999", (0, 0, 10000));
    use_next_patch("a-v-b-v3.+4.0000", (3, 4, 1));
}

fn use_next_patch(latest: &str, expected: (u32, u32, u32)) {
    let (_, old_version) = get_assetid_version_tag(latest).unwrap();
    let old = parse_version_tuple(&old_version).unwrap();
    let next = next_tag("unused", Ok(latest.to_string())).unwrap();
    let (_, version) = get_assetid_version_tag(&next).unwrap();
    let new = parse_version_tuple(&version).unwrap();
    assert_eq!(new, expected);
    assert_eq!((new.0, new.1, new.2), (old.0, old.1, old.2 + 1));
}
