//! Staging, committing and tagging one file, and what `git ls-files` and `git log` say of
//! uncommitted files and commit dates.
use vstd::prelude::*;

use crate::config::{MAX_RETRY_ATTEMPTS, RETRY_DELAY};
use crate::git::pub_helper::GitOutput;
use crate::paths::{join_path, path_join};
use crate::text::{
    chars_of, concat2, lines, split_lines, trim, trim_string, views,
};

verus! {

// ---------------------------------------------------------------------------------------------
// Uncommitted files and commit dates
// ---------------------------------------------------------------------------------------------

/// The lines of `ls` that do not start with `'.'`, in order.
pub open spec fn not_dotted(ls: Seq<Seq<char>>) -> Seq<Seq<char>>
    decreases ls.len(),
{
    if ls.len() == 0 {
        seq![]
    } else if ls.last().len() > 0 && ls.last()[0] == '.' {
        not_dotted(ls.drop_last())
    } else {
        not_dotted(ls.drop_last()).push(ls.last())
    }
}

/// The new and modified files that `git ls-files --others --exclude-standard --modified`
/// listed, leaving out those whose path starts with `'.'`.
pub fn parse_uncommitted(stdout: &str) -> (files: Vec<String>)
    ensures
        views(files@) == not_dotted(lines(stdout@)),
{
    let all = split_lines(stdout);
    let ghost ls = lines(stdout@);
    let mut files: Vec<String> = Vec::new();
    let mut i: usize = 0;
    while i < all.len()
        invariant
            i <= all@.len(),
            views(all@) == ls,
            views(files@) == not_dotted(ls.take(i as int)),
        decreases all@.len() - i,
    {
        assert(ls.take(i + 1).drop_last() =~= ls.take(i as int));
        assert(views(all@)[i as int] == all@[i as int]@);
        let v = chars_of(all[i].as_str());
        let ghost before = views(files@);
        if !(v.len() > 0 && v[0] == '.') {
            files.push(all[i].clone());
            assert(views(files@) =~= before.push(ls[i as int]));
        }
        i = i + 1;
    }
    assert(ls.take(all@.len() as int) =~= ls);
    files
}

/// The date that `git log -1 --format=%cd --date=format:%d/%m/%Y <tag>` printed, trimmed;
/// an empty answer is refused.
pub fn parse_commit_date(stdout: &str) -> (r: Result<String, String>)
    ensures
        if trim(stdout@).len() == 0 {
            r matches Err(e) && e@ == "Failed to retrieve date for commit"@
        } else {
            r matches Ok(d) && d@ == trim(stdout@)
        },
{
    let d = trim_string(stdout);
    let dv = chars_of(d.as_str());
    if dv.len() == 0 {
        Err(String::from_str("Failed to retrieve date for commit"))
    } else {
        Ok(d)
    }
}

// ---------------------------------------------------------------------------------------------
// Staging, committing and tagging
// ---------------------------------------------------------------------------------------------

/// How many times tagging is tried before the commit is rolled back.
pub const RETRY_CAP: u64 = (MAX_RETRY_ATTEMPTS + 9) / 10;

/// A request to stage, commit and tag one file.
pub struct StageRequest {
    pub root_path: String,
    pub relative_file_path: String,
    pub tag: String,
    pub summary: String,
    pub detail: String,
}

/// Where the staging of a file stands.
pub enum StageState {
    /// `git add` runs.
    Adding,
    /// The database is asked for the old path of a renamed file.
    LookingUpOldPath,
    /// `git rm --cached` runs on the old path.
    Removing,
    /// `git commit` runs.
    Committing,
    /// The commit failed with this error output; `git restore --staged .` runs.
    RestoringAfterCommit { commit_error: String },
    /// `git tag` runs for the given time, counted from 0.
    Tagging { attempt: u64 },
    /// A pause before tagging again.
    WaitingToTag { attempt: u64 },
    /// Tagging failed for good with this error; `git reset --soft HEAD~1` runs.
    ResettingCommit { last_error: String },
    /// Nothing is left to do.
    Done,
}

/// What the caller does next.
pub enum StageAction {
    /// Run `git` with these arguments in the project's root.
    Git(Vec<String>),
    /// Ask the database for the old path linked to the file.
    LookUpOldPath,
    /// Wait this many milliseconds.
    Sleep(u64),
    /// Stop with this result.
    Finish(Result<String, String>),
}

/// What happened to the last action.
pub enum StageEvent {
    /// The command ran.
    Ran(GitOutput),
    /// The command could not be started; the text of the error.
    NotStarted(String),
    /// The database's answer about the old path.
    OldPath(Result<Option<String>, String>),
    /// The pause is over.
    Slept,
}

/// A view of the staging state.
pub ghost enum StageStateView {
    Adding,
    LookingUpOldPath,
    Removing,
    Committing,
    RestoringAfterCommit(Seq<char>),
    Tagging(nat),
    WaitingToTag(nat),
    ResettingCommit(Seq<char>),
    Done,
}

/// A view of an action.
pub ghost enum StageActionView {
    Git(Seq<Seq<char>>),
    LookUpOldPath,
    Sleep(nat),
    Finish(Result<Seq<char>, Seq<char>>),
}

pub open spec fn state_view(s: StageState) -> StageStateView {
    match s {
        StageState::Adding => StageStateView::Adding,
        StageState::LookingUpOldPath => StageStateView::LookingUpOldPath,
        StageState::Removing => StageStateView::Removing,
        StageState::Committing => StageStateView::Committing,
        StageState::RestoringAfterCommit { commit_error } => StageStateView::RestoringAfterCommit(
            commit_error@,
        ),
        StageState::Tagging { attempt } => StageStateView::Tagging(attempt as nat),
        StageState::WaitingToTag { attempt } => StageStateView::WaitingToTag(attempt as nat),
        StageState::ResettingCommit { last_error } => StageStateView::ResettingCommit(
            last_error@,
        ),
        StageState::Done => StageStateView::Done,
    }
}

pub open spec fn action_view(a: StageAction) -> StageActionView {
    match a {
        StageAction::Git(args) => StageActionView::Git(views(args@)),
        StageAction::LookUpOldPath => StageActionView::LookUpOldPath,
        StageAction::Sleep(ms) => StageActionView::Sleep(ms as nat),
        StageAction::Finish(r) => StageActionView::Finish(crate::text::result_view(r)),
    }
}

/// `git add <root>/<file>`.
pub open spec fn add_args(req: StageRequest) -> Seq<Seq<char>> {
    seq!["add"@, path_join(req.root_path@, req.relative_file_path@)]
}

/// `git rm --cached --ignore-unmatch <old path>`.
pub open spec fn rm_args(old_path: Seq<char>) -> Seq<Seq<char>> {
    seq!["rm"@, "--cached"@, "--ignore-unmatch"@, old_path]
}

/// `git commit -m <summary>`, with `-m <detail>` added when the detail is not blank.
pub open spec fn commit_args(req: StageRequest) -> Seq<Seq<char>> {
    if trim(req.detail@).len() == 0 {
        seq!["commit"@, "-m"@, req.summary@]
    } else {
        seq!["commit"@, "-m"@, req.summary@, "-m"@, req.detail@]
    }
}

/// `git tag -- <tag>`.
pub open spec fn tag_args(req: StageRequest) -> Seq<Seq<char>> {
    seq!["tag"@, "--"@, req.tag@]
}

/// `git restore --staged .`.
pub open spec fn restore_args() -> Seq<Seq<char>> {
    seq!["restore"@, "--staged"@, "."@]
}

/// `git reset --soft HEAD~1`.
pub open spec fn reset_args() -> Seq<Seq<char>> {
    seq!["reset"@, "--soft"@, "HEAD~1"@]
}

/// The message for a failed command: `prefix` and its strictly decoded error output, or the
/// decoding error.
pub open spec fn failure_text(r: Result<String, String>, prefix: Seq<char>) -> Seq<char> {
    match r {
        Ok(t) => prefix + t@,
        Err(d) => d@,
    }
}

/// Stop with `r`.
pub open spec fn finish(r: Result<Seq<char>, Seq<char>>) -> (StageStateView, StageActionView) {
    (StageStateView::Done, StageActionView::Finish(r))
}

/// The event is one that the state waits for.
pub open spec fn event_fits(s: StageState, e: StageEvent) -> bool {
    match s {
        StageState::LookingUpOldPath => e is OldPath,
        StageState::WaitingToTag { .. } => e is Slept,
        StageState::Done => false,
        _ => e is Ran || e is NotStarted,
    }
}

/// The states that staging can be in: tagging is tried at most `RETRY_CAP` times.
pub open spec fn stage_wf(s: StageStateView) -> bool {
    match s {
        StageStateView::Tagging(a) => a < RETRY_CAP,
        StageStateView::WaitingToTag(a) => 1 <= a < RETRY_CAP,
        _ => true,
    }
}

/// Where staging goes from state `s` on event `e`, and what the caller does next:
/// - `git add`; on failure stop with `Git add failed: <error>`;
/// - ask for the old path of the file; if there is one, `git rm --cached` it (on failure
///   stop with `Git rm failed: <error>`);
/// - `git commit`; on failure `git restore --staged .` and stop with
///   `Git commit failed: <error>` (followed by `\nRollback failed: <error>` when the restore
///   failed too);
/// - `git tag`, up to `RETRY_CAP` times with a pause of `RETRY_DELAY` ms between tries; the
///   first success stops with its output;
/// - when every try failed, `git reset --soft HEAD~1` and stop with
///   `Git tag failed: <error>. Commit was rolled back.` (or `\nRollback failed: <error>`).
/// A command that cannot be started, or an error of the database, stops with its text.
pub open spec fn stage_next(req: StageRequest, s: StageState, e: StageEvent) -> (
    StageStateView,
    StageActionView,
) {
    match e {
        StageEvent::NotStarted(m) => finish(Err(m@)),
        StageEvent::OldPath(answer) => match answer {
            Err(m) => finish(Err(m@)),
            Ok(Some(p)) => (StageStateView::Removing, StageActionView::Git(rm_args(p@))),
            Ok(None) => (StageStateView::Committing, StageActionView::Git(commit_args(req))),
        },
        StageEvent::Slept => match s {
            StageState::WaitingToTag { attempt } => (
                StageStateView::Tagging(attempt as nat),
                StageActionView::Git(tag_args(req)),
            ),
            _ => finish(Err(seq![])),
        },
        StageEvent::Ran(o) => match s {
            StageState::Adding => if o.success {
                (StageStateView::LookingUpOldPath, StageActionView::LookUpOldPath)
            } else {
                finish(Err(failure_text(o.stderr, "Git add failed: "@)))
            },
            StageState::Removing => if o.success {
                (StageStateView::Committing, StageActionView::Git(commit_args(req)))
            } else {
                finish(Err("Git rm failed: "@ + trim(o.stderr_lossy@)))
            },
            StageState::Committing => if o.success {
                (StageStateView::Tagging(0), StageActionView::Git(tag_args(req)))
            } else {
                (
                    StageStateView::RestoringAfterCommit(o.stderr_lossy@),
                    StageActionView::Git(restore_args()),
                )
            },
            StageState::RestoringAfterCommit { commit_error } => if o.success {
                finish(Err("Git commit failed: "@ + trim(commit_error@)))
            } else {
                finish(
                    Err(
                        "Git commit failed: "@ + trim(commit_error@) + "\nRollback failed: "@
                            + trim(o.stderr_lossy@),
                    ),
                )
            },
            StageState::Tagging { attempt } => if o.success {
                finish(crate::text::result_view(o.stdout))
            } else if attempt + 1 < RETRY_CAP {
                (
                    StageStateView::WaitingToTag((attempt + 1) as nat),
                    StageActionView::Sleep(RETRY_DELAY as nat),
                )
            } else {
                (
                    StageStateView::ResettingCommit(trim(o.stderr_lossy@)),
                    StageActionView::Git(reset_args()),
                )
            },
            StageState::ResettingCommit { last_error } => if o.success {
                finish(Err("Git tag failed: "@ + last_error@ + ". Commit was rolled back."@))
            } else {
                finish(
                    Err(
                        "Git tag failed: "@ + last_error@ + "\nRollback failed: "@ + trim(
                            o.stderr_lossy@,
                        ),
                    ),
                )
            },
            _ => finish(Err(seq![])),
        },
    }
}

fn s(text: &str) -> (r: String)
    ensures
        r@ == text@,
{
    String::from_str(text)
}

fn clone_string(x: &String) -> (r: String)
    ensures
        r@ == x@,
{
    x.clone()
}

/// The first action of staging a file: `git add <root>/<file>`.
pub fn stage_start(req: &StageRequest) -> (r: (StageState, StageAction))
    ensures
        state_view(r.0) == StageStateView::Adding,
        action_view(r.1) == StageActionView::Git(add_args(*req)),
{
    let target = join_path(req.root_path.as_str(), req.relative_file_path.as_str());
    let args = vec![s("add"), target];
    assert(views(args@) =~= add_args(*req));
    (StageState::Adding, StageAction::Git(args))
}

fn commit_action(req: &StageRequest) -> (a: StageAction)
    ensures
        action_view(a) == StageActionView::Git(commit_args(*req)),
{
    let d = trim_string(req.detail.as_str());
    let dv = chars_of(d.as_str());
    if dv.len() == 0 {
        let args = vec![s("commit"), s("-m"), clone_string(&req.summary)];
        assert(views(args@) =~= commit_args(*req));
        StageAction::Git(args)
    } else {
        let args = vec![
            s("commit"),
            s("-m"),
            clone_string(&req.summary),
            s("-m"),
            clone_string(&req.detail),
        ];
        assert(views(args@) =~= commit_args(*req));
        StageAction::Git(args)
    }
}

fn tag_action(req: &StageRequest) -> (a: StageAction)
    ensures
        action_view(a) == StageActionView::Git(tag_args(*req)),
{
    let args = vec![s("tag"), s("--"), clone_string(&req.tag)];
    assert(views(args@) =~= tag_args(*req));
    StageAction::Git(args)
}

fn with_prefix(r: Result<String, String>, prefix: &str) -> (out: Result<String, String>)
    ensures
        crate::text::result_view(out) == Err::<Seq<char>, Seq<char>>(failure_text(r, prefix@)),
{
    match r {
        Ok(t) => Err(concat2(prefix, t.as_str())),
        Err(d) => Err(d),
    }
}

/// The next state and action of staging after event `e` in state `st`.
pub fn stage_step(req: &StageRequest, st: StageState, e: StageEvent) -> (r: (
    StageState,
    StageAction,
))
    requires
        event_fits(st, e),
        stage_wf(state_view(st)),
    ensures
        (state_view(r.0), action_view(r.1)) == stage_next(*req, st, e),
{
    match e {
        StageEvent::NotStarted(m) => (StageState::Done, StageAction::Finish(Err(m))),
        StageEvent::OldPath(answer) => match answer {
            Err(m) => (StageState::Done, StageAction::Finish(Err(m))),
            Ok(Some(p)) => {
                let args = vec![s("rm"), s("--cached"), s("--ignore-unmatch"), p];
                assert(views(args@) =~= rm_args(p@));
                (StageState::Removing, StageAction::Git(args))
            },
            Ok(None) => (StageState::Committing, commit_action(req)),
        },
        StageEvent::Slept => match st {
            StageState::WaitingToTag { attempt } => (
                StageState::Tagging { attempt },
                tag_action(req),
            ),
            _ => (StageState::Done, StageAction::Finish(Err(String::new()))),
        },
        StageEvent::Ran(o) => match st {
            StageState::Adding => {
                if o.success {
                    (StageState::LookingUpOldPath, StageAction::LookUpOldPath)
                } else {
                    (StageState::Done, StageAction::Finish(with_prefix(o.stderr, "Git add failed: ")))
                }
            },
            StageState::Removing => {
                if o.success {
                    (StageState::Committing, commit_action(req))
                } else {
                    let t = trim_string(o.stderr_lossy.as_str());
                    (StageState::Done, StageAction::Finish(Err(concat2("Git rm failed: ", t.as_str()))))
                }
            },
            StageState::Committing => {
                if o.success {
                    (StageState::Tagging { attempt: 0 }, tag_action(req))
                } else {
                    let args = vec![s("restore"), s("--staged"), s(".")];
                    assert(views(args@) =~= restore_args());
                    (
                        StageState::RestoringAfterCommit { commit_error: o.stderr_lossy },
                        StageAction::Git(args),
                    )
                }
            },
            StageState::RestoringAfterCommit { commit_error } => {
                let ce = trim_string(commit_error.as_str());
                let mut m = concat2("Git commit failed: ", ce.as_str());
                if !o.success {
                    let rb = trim_string(o.stderr_lossy.as_str());
                    m.append("\nRollback failed: ");
                    m.append(rb.as_str());
                }
                (StageState::Done, StageAction::Finish(Err(m)))
            },
            StageState::Tagging { attempt } => {
                if o.success {
                    (StageState::Done, StageAction::Finish(o.stdout))
                } else if attempt + 1 < RETRY_CAP {
                    (StageState::WaitingToTag { attempt: attempt + 1 }, StageAction::Sleep(RETRY_DELAY))
                } else {
                    let last = trim_string(o.stderr_lossy.as_str());
                    let args = vec![s("reset"), s("--soft"), s("HEAD~1")];
                    assert(views(args@) =~= reset_args());
                    (StageState::ResettingCommit { last_error: last }, StageAction::Git(args))
                }
            },
            StageState::ResettingCommit { last_error } => {
                let mut m = concat2("Git tag failed: ", last_error.as_str());
                if o.success {
                    m.append(". Commit was rolled back.");
                } else {
                    let rb = trim_string(o.stderr_lossy.as_str());
                    m.append("\nRollback failed: ");
                    m.append(rb.as_str());
                }
                (StageState::Done, StageAction::Finish(Err(m)))
            },
            _ => (StageState::Done, StageAction::Finish(Err(String::new()))),
        },
    }
}

// ---------------------------------------------------------------------------------------------
// Laws of staging
// ---------------------------------------------------------------------------------------------

/// A measure of the work left: it falls with every step that does not stop.
pub open spec fn stage_rank(s: StageStateView) -> int {
    match s {
        StageStateView::Adding => 100,
        StageStateView::LookingUpOldPath => 99,
        StageStateView::Removing => 98,
        StageStateView::Committing => 97,
        StageStateView::RestoringAfterCommit(_) => 1,
        StageStateView::Tagging(a) => 2 * (RETRY_CAP - a) + 2,
        StageStateView::WaitingToTag(a) => 2 * (RETRY_CAP - a) + 3,
        StageStateView::ResettingCommit(_) => 1,
        StageStateView::Done => 0,
    }
}

/// Staging always comes to an end: every step either stops or moves to a state of lower
/// rank, and it keeps the number of tagging tries within `RETRY_CAP`.
pub proof fn lemma_stage_progress(req: StageRequest, s: StageState, e: StageEvent)
    requires
        event_fits(s, e),
        stage_wf(state_view(s)),
    ensures
        stage_wf(stage_next(req, s, e).0),
        stage_next(req, s, e).1 is Finish || (0 <= stage_rank(stage_next(req, s, e).0)
            < stage_rank(state_view(s))),
        stage_next(req, s, e).1 is Finish <==> stage_next(req, s, e).0 == StageStateView::Done,
{
}

/// Staging reports success only when `git tag` has just succeeded (after `git add` and
/// `git commit` did).
pub proof fn lemma_stage_success_only_after_tag(req: StageRequest, s: StageState, e: StageEvent)
    requires
        event_fits(s, e),
        stage_next(req, s, e).1 matches StageActionView::Finish(Ok(_)),
    ensures
        s is Tagging,
        e matches StageEvent::Ran(o) && o.success,
{
}

/// A failed commit is always followed by unstaging everything, and a tag that failed for the
/// last time by undoing the commit.
pub proof fn lemma_stage_rolls_back(req: StageRequest, s: StageState, e: StageEvent)
    requires
        event_fits(s, e),
        stage_wf(state_view(s)),
    ensures
        match e {
            StageEvent::Ran(o) => {
                &&& (s is Committing && !o.success) ==> stage_next(req, s, e).1
                    == StageActionView::Git(restore_args())
                &&& (match s {
                    StageState::Tagging { attempt } => attempt + 1 == RETRY_CAP,
                    _ => false,
                } && !o.success) ==> stage_next(req, s, e).1 == StageActionView::Git(
                    reset_args(),
                )
            },
            _ => true,
        },
{
}

} // verus!
