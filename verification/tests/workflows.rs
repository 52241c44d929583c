use asset_version_control::git::diff::{
    rename_start, rename_step, RenameAction, RenameEvent, RenameState, RESTORE_ATTEMPTS,
};
use asset_version_control::git::commit::{
    stage_start, stage_step, StageAction, StageEvent, StageRequest, StageState, RETRY_CAP,
};
use asset_version_control::git::pub_helper::GitOutput;
use asset_version_control::stamp::{
    stamp_start, stamp_step, StampAction, StampEvent, StampPhase, StampRequest, StampState,
};

fn git_args(a: &StageAction) -> Vec<String> {
    match a {
        StageAction::Git(args) => args.clone(),
        _ => panic!("expected a git command"),
    }
}

fn ran(success: bool, stdout: &str, stderr: &str) -> StageEvent {
    StageEvent::Ran(GitOutput {
        success,
        stdout: Ok(stdout.to_string()),
        stderr: Ok(stderr.to_string()),
        stderr_lossy: stderr.to_string(),
    })
}

fn request(detail: &str) -> StageRequest {
    StageRequest {
        root_path: "/proj".to_string(),
        relative_file_path: "chair.blend".to_string(),
        tag: "chair_1-v00.00.0001".to_string(),
        summary: "first".to_string(),
        detail: detail.to_string(),
    }
}

fn finished(a: StageAction) -> Result<String, String> {
    match a {
        StageAction::Finish(r) => r,
        _ => panic!("expected the end"),
    }
}

#[test]
fn staging_a_renamed_file_runs_every_command() {
    let req = request("  ");
    let (st, a) = stage_start(&req);
    assert!(matches!(st, StageState::Adding));
    assert_eq!(git_args(&a), vec!["add", "/proj/chair.blend"]);

    let (st, a) = stage_step(&req, st, ran(true, "", ""));
    assert!(matches!(st, StageState::LookingUpOldPath));
    assert!(matches!(a, StageAction::LookUpOldPath));

    let (st, a) = stage_step(&req, st, StageEvent::OldPath(Ok(Some("old.blend".to_string()))));
    assert!(matches!(st, StageState::Removing));
    assert_eq!(git_args(&a), vec!["rm", "--cached", "--ignore-unmatch", "old.blend"]);

    let (st, a) = stage_step(&req, st, ran(true, "", ""));
    assert!(matches!(st, StageState::Committing));
    // A blank detail adds no second message.
    assert_eq!(git_args(&a), vec!["commit", "-m", "first"]);

    let (st, a) = stage_step(&req, st, ran(true, "", ""));
    assert!(matches!(st, StageState::Tagging { attempt: 0 }));
    assert_eq!(git_args(&a), vec!["tag", "--", "chair_1-v00.00.0001"]);

    let (st, a) = stage_step(&req, st, ran(true, "tagged", ""));
    assert!(matches!(st, StageState::Done));
    assert_eq!(finished(a), Ok("tagged".to_string()));
}

#[test]
fn commit_with_detail_and_no_old_path() {
    let req = request("more words");
    let (st, _) = stage_start(&req);
    let (st, _) = stage_step(&req, st, ran(true, "", ""));
    let (st, a) = stage_step(&req, st, StageEvent::OldPath(Ok(None)));
    assert!(matches!(st, StageState::Committing));
    assert_eq!(git_args(&a), vec!["commit", "-m", "first", "-m", "more words"]);
}

#[test]
fn tagging_is_retried_then_the_commit_is_rolled_back() {
    let req = request("");
    let mut st = StageState::Tagging { attempt: 0 };
    let mut tries = 0u64;
    loop {
        let (next, a) = stage_step(&req, st, ran(false, "", " tag exists \n"));
        tries += 1;
        match next {
            StageState::WaitingToTag { attempt } => {
                assert_eq!(attempt, tries);
                assert!(matches!(a, StageAction::Sleep(150)));
                let (again, a) = stage_step(&req, next, StageEvent::Slept);
                assert!(matches!(again, StageState::Tagging { .. }));
                assert_eq!(git_args(&a), vec!["tag", "--", "chair_1-v00.00.0001"]);
                st = again;
            }
            StageState::ResettingCommit { ref last_error } => {
                assert_eq!(last_error, "tag exists");
                assert_eq!(git_args(&a), vec!["reset", "--soft", "HEAD~1"]);
                let (done, a) = stage_step(&req, next, ran(true, "", ""));
                assert!(matches!(done, StageState::Done));
                assert_eq!(
                    finished(a),
                    Err("Git tag failed: tag exists. Commit was rolled back.".to_string())
                );
                break;
            }
            _ => panic!("unexpected state"),
        }
    }
    assert_eq!(tries, RETRY_CAP);
    assert_eq!(RETRY_CAP, 10);
}

#[test]
fn failed_rollback_is_reported() {
    let req = request("");
    let st = StageState::ResettingCommit { last_error: "e".to_string() };
    let (_, a) = stage_step(&req, st, ran(false, "", " no HEAD~1 \n"));
    assert_eq!(finished(a), Err("Git tag failed: e\nRollback failed: no HEAD~1".to_string()));
}

#[test]
fn failed_commit_is_restored() {
    let req = request("");
    let (st, a) = stage_step(&req, StageState::Committing, ran(false, "", " nothing to commit \n"));
    assert!(matches!(st, StageState::RestoringAfterCommit { .. }));
    assert_eq!(git_args(&a), vec!["restore", "--staged", "."]);
    let (_, a) = stage_step(&req, st, ran(true, "", ""));
    assert_eq!(finished(a), Err("Git commit failed: nothing to commit".to_string()));

    let (st, _) = stage_step(&req, StageState::Committing, ran(false, "", "x"));
    let (_, a) = stage_step(&req, st, ran(false, "", "y\n"));
    assert_eq!(finished(a), Err("Git commit failed: x\nRollback failed: y".to_string()));
}

#[test]
fn staging_errors_stop_at_once() {
    let req = request("");
    let (_, a) = stage_step(&req, StageState::Adding, ran(false, "", "pathspec"));
    assert_eq!(finished(a), Err("Git add failed: pathspec".to_string()));
    let (_, a) = stage_step(&req, StageState::Removing, ran(false, "", " busy\n"));
    assert_eq!(finished(a), Err("Git rm failed: busy".to_string()));
    let (_, a) = stage_step(&req, StageState::Adding, StageEvent::NotStarted("no git".to_string()));
    assert_eq!(finished(a), Err("no git".to_string()));
    let (_, a) = stage_step(
        &req,
        StageState::LookingUpOldPath,
        StageEvent::OldPath(Err("db locked".to_string())),
    );
    assert_eq!(finished(a), Err("db locked".to_string()));
    let bad_utf8 = StageEvent::Ran(GitOutput {
        success: false,
        stdout: Ok(String::new()),
        stderr: Err("invalid utf-8 sequence".to_string()),
        stderr_lossy: "\u{fffd}".to_string(),
    });
    let (_, a) = stage_step(&req, StageState::Adding, bad_utf8);
    assert_eq!(finished(a), Err("invalid utf-8 sequence".to_string()));
}

fn stamp_request() -> StampRequest {
    StampRequest {
        tag: "chair_1-v00.00.0002".to_string(),
        relative_file_path: "chair.blend".to_string(),
    }
}

fn stamp_finish(a: StampAction) -> Result<(), String> {
    match a {
        StampAction::Finish(r) => r,
        _ => panic!("expected the end"),
    }
}

#[test]
fn stamping_a_new_version_runs_every_step() {
    let req = stamp_request();
    let (s, a) = stamp_start(&req.tag);
    assert_eq!(s.asset_id, "chair_1");
    assert_eq!(s.attempt, 0);
    assert_eq!(s.phase, StampPhase::ListingTags);
    assert!(matches!(a, StampAction::ListTags(ref id) if id == "chair_1"));

    let (s, a) = stamp_step(&req, s, StampEvent::Tags(Ok(vec!["chair_1-v00.00.0001".to_string()])));
    assert_eq!(s.phase, StampPhase::Staging);
    assert!(matches!(a, StampAction::StageCommitTag));

    let (s, a) = stamp_step(&req, s, StampEvent::Staged(Ok("ok".to_string())));
    assert_eq!(s.phase, StampPhase::UpdatingDb);
    assert!(matches!(a, StampAction::UpdateDb));

    let (s, a) = stamp_step(&req, s, StampEvent::Updated(Ok(())));
    assert_eq!(s.phase, StampPhase::UpdatingLog);
    assert!(matches!(a, StampAction::UpdateLog(ref id) if id == "chair_1"));

    let (s, a) = stamp_step(&req, s, StampEvent::Updated(Ok(())));
    assert_eq!(s.phase, StampPhase::DeletingLink);
    assert!(matches!(a, StampAction::DeleteLink));

    let (s, a) = stamp_step(&req, s, StampEvent::Updated(Ok(())));
    assert_eq!(s.phase, StampPhase::Done);
    assert_eq!(stamp_finish(a), Ok(()));
}

#[test]
fn stamping_a_malformed_tag_stops() {
    let (s, a) = stamp_start("no-separator");
    assert_eq!(s.phase, StampPhase::Done);
    assert_eq!(stamp_finish(a), Err("Tag format is invalid: no-separator".to_string()));
}

#[test]
fn existing_tag_must_mark_the_file() {
    let req = stamp_request();
    let (s, _) = stamp_start(&req.tag);
    let (s, a) = stamp_step(&req, s, StampEvent::Tags(Ok(vec![req.tag.clone()])));
    assert_eq!(s.phase, StampPhase::CheckingLatestTag);
    assert!(matches!(a, StampAction::LatestTagOfFile));
    let (s2, a) = stamp_step(
        &req,
        StampState { asset_id: s.asset_id.clone(), attempt: 0, last_error: String::new(), phase: s.phase },
        StampEvent::LatestTag(Ok(req.tag.clone())),
    );
    assert_eq!(s2.phase, StampPhase::UpdatingDb);
    assert!(matches!(a, StampAction::UpdateDb));
    let (_, a) = stamp_step(&req, s, StampEvent::LatestTag(Ok("chair_1-v00.00.0001".to_string())));
    assert_eq!(
        stamp_finish(a),
        Err("FATAL: Tag 'chair_1-v00.00.0002' already exists, but target path 'chair.blend' is not committed under it.".to_string())
    );
}

#[test]
fn fatal_staging_error_is_not_retried() {
    let req = stamp_request();
    let s = StampState {
        asset_id: "chair_1".to_string(),
        attempt: 3,
        last_error: String::new(),
        phase: StampPhase::Staging,
    };
    let (s, a) = stamp_step(&req, s, StampEvent::Staged(Err("FATAL: broken".to_string())));
    assert_eq!(s.phase, StampPhase::Done);
    assert_eq!(stamp_finish(a), Err("FATAL: broken".to_string()));
}

#[test]
fn failed_steps_are_retried_up_to_the_limit() {
    let req = stamp_request();
    let (mut s, _) = stamp_start(&req.tag);
    let mut attempts = 0;
    loop {
        let (next, a) = stamp_step(&req, s, StampEvent::Tags(Ok(Vec::new())));
        let (next, a2) = stamp_step(&req, next, StampEvent::Staged(Err("oops".to_string())));
        assert!(matches!(a, StampAction::StageCommitTag));
        attempts += 1;
        match a2 {
            StampAction::Sleep(ms) => {
                assert_eq!(ms, 150);
                assert_eq!(next.attempt, attempts);
                assert_eq!(next.last_error, "oops");
                let (again, a3) = stamp_step(&req, next, StampEvent::Slept);
                assert!(matches!(a3, StampAction::ListTags(_)));
                s = again;
            }
            StampAction::Finish(r) => {
                assert_eq!(r, Err("Commit stamp failed after 100 attempts. Last error: oops".to_string()));
                break;
            }
            _ => panic!("unexpected action"),
        }
    }
    assert_eq!(attempts, 100);
}

#[test]
fn failed_updates_are_named() {
    let req = stamp_request();
    let at = |phase| StampState {
        asset_id: "chair_1".to_string(),
        attempt: 0,
        last_error: String::new(),
        phase,
    };
    let (s, _) = stamp_step(&req, at(StampPhase::UpdatingDb), StampEvent::Updated(Err("x".to_string())));
    assert_eq!(s.last_error, "Database update failed: x");
    let (s, _) = stamp_step(&req, at(StampPhase::UpdatingLog), StampEvent::Updated(Err("y".to_string())));
    assert_eq!(s.last_error, "Log markdown update failed: y");
    let (s, _) = stamp_step(&req, at(StampPhase::DeletingLink), StampEvent::Updated(Err("z".to_string())));
    assert_eq!(s.last_error, "Database delete link failed: z");
    assert_eq!(s.phase, StampPhase::Waiting);
    let (s, a) = stamp_step(&req, at(StampPhase::ListingTags), StampEvent::Tags(Err("git".to_string())));
    assert_eq!(s.phase, StampPhase::Done);
    assert_eq!(stamp_finish(a), Err("git".to_string()));
}

fn rename_args(a: &RenameAction) -> Vec<String> {
    match a {
        RenameAction::Git(args) => args.clone(),
        _ => panic!("expected a git command"),
    }
}

fn rename_ran(success: bool, stdout: &str, stderr: &str) -> RenameEvent {
    RenameEvent::Ran(GitOutput {
        success,
        stdout: Ok(stdout.to_string()),
        stderr: Ok(stderr.to_string()),
        stderr_lossy: stderr.to_string(),
    })
}

#[test]
fn renames_are_read_after_unstaging() {
    let (s, a) = rename_start();
    assert!(matches!(s, RenameState::Adding));
    assert_eq!(rename_args(&a), vec!["add", "-A"]);
    let (s, a) = rename_step(50, s, rename_ran(true, "", ""));
    assert_eq!(rename_args(&a), vec!["diff", "--cached", "--find-renames=50%", "--name-status", "HEAD"]);
    let (s, a) = rename_step(50, s, rename_ran(true, "R090\told.blend\tnew.blend\nM\tx.txt\n", ""));
    assert!(matches!(s, RenameState::Restoring { attempt: 1, .. }));
    assert_eq!(rename_args(&a), vec!["restore", "--staged", "."]);
    let (s, a) = rename_step(50, s, rename_ran(true, "", ""));
    assert!(matches!(s, RenameState::Done));
    match a {
        RenameAction::Finish(Ok(cs)) => {
            assert_eq!(cs.len(), 1);
            assert_eq!(cs[0].old_path, "old.blend");
            assert_eq!(cs[0].new_path, "new.blend");
            assert_eq!(cs[0].score, 90);
        }
        _ => panic!("expected the renames"),
    }
}

#[test]
fn failed_diff_is_reported_after_unstaging() {
    let (s, _) = rename_step(50, RenameState::Diffing, rename_ran(false, "", "bad revision"));
    let (_, a) = rename_step(50, s, rename_ran(true, "", ""));
    assert!(matches!(a, RenameAction::Finish(Err(ref m)) if m == "Git diff commit failed: bad revision"));
    let (s, a) = rename_step(50, RenameState::Diffing, RenameEvent::NotStarted("no git".to_string()));
    assert_eq!(rename_args(&a), vec!["restore", "--staged", "."]);
    let (_, a) = rename_step(50, s, rename_ran(true, "", ""));
    assert!(matches!(a, RenameAction::Finish(Err(ref m)) if m == "no git"));
}

#[test]
fn unstaging_is_tried_a_hundred_times() {
    let (mut s, _) = rename_step(50, RenameState::Diffing, rename_ran(true, "", ""));
    let mut tries = 0;
    loop {
        let (next, a) = rename_step(50, s, rename_ran(false, "", "index.lock"));
        tries += 1;
        match a {
            RenameAction::Sleep(150) => {
                let (again, a) = rename_step(50, next, RenameEvent::Slept);
                assert_eq!(rename_args(&a), vec!["restore", "--staged", "."]);
                s = again;
            }
            RenameAction::Finish(r) => {
                assert_eq!(r.unwrap_err(), "cannot undo git add due to: Git restore failed: index.lock");
                break;
            }
            _ => panic!("unexpected action"),
        }
    }
    assert_eq!(tries, RESTORE_ATTEMPTS);
}

#[test]
fn failed_add_stops_at_once() {
    let (_, a) = rename_step(50, RenameState::Adding, rename_ran(false, "", "fatal"));
    assert!(matches!(a, RenameAction::Finish(Err(ref m)) if m == "Git add failed: fatal"));
}
