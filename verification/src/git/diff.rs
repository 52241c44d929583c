//! Renames that Git detects between the last commit and the working tree.
use vstd::prelude::*;

use crate::config::RenameCandidate;
use crate::git::commit::restore_args;
use crate::git::pub_helper::{command_text, command_text_of, GitOutput};
use crate::text::{
    chars_of, concat3, dec, int_error_message, int_error_text, lemma_split_join, lemma_split_plain,
    lines, parse_uint,
    parse_uint_range, split_char, split_lines, split_on, string_of, u64_to_dec, views,
};

verus! {

/// The option that sets Git's rename threshold: `--find-renames=<threshold>%`.
pub fn find_renames_arg(threshold: u8) -> (a: String)
    ensures
        a@ == "--find-renames="@ + dec(threshold as nat) + "%"@,
{
    let d = u64_to_dec(threshold as u64);
    concat3("--find-renames=", d.as_str(), "%")
}

/// A rename read from a line of `git diff --name-status`: old path, new path, score.
pub type RenameView = (Seq<char>, Seq<char>, u8);

/// The renames in `ls[..n]`: a line of three tab-separated fields whose first field starts
/// with `'R'` is a rename whose score is the rest of that field; other lines are not renames.
/// A score that is not a number from 0 to 255 is refused with the parser's message.
pub open spec fn renames_in(ls: Seq<Seq<char>>, n: int) -> Result<Seq<RenameView>, Seq<char>>
    decreases n,
{
    if n <= 0 || n > ls.len() {
        Ok(seq![])
    } else {
        match renames_in(ls, n - 1) {
            Err(e) => Err(e),
            Ok(found) => {
                let fields = split_char(ls[n - 1], '\t');
                if fields.len() == 3 && fields[0].len() > 0 && fields[0][0] == 'R' {
                    match parse_uint(fields[0].drop_first(), 255) {
                        Ok(score) => Ok(found.push((fields[1], fields[2], score as u8))),
                        Err(k) => Err("Failed to parse score: "@ + int_error_text(k)),
                    }
                } else {
                    Ok(found)
                }
            },
        }
    }
}

/// Once the renames of a prefix are refused, so are those of every longer prefix, with the
/// same message.
pub proof fn lemma_renames_err_persists(ls: Seq<Seq<char>>, n: int, m: int)
    requires
        0 <= n <= m <= ls.len(),
        renames_in(ls, n) is Err,
    ensures
        renames_in(ls, m) == renames_in(ls, n),
    decreases m - n,
{
    if m > n {
        lemma_renames_err_persists(ls, n, m - 1);
    }
}

/// A line that `git diff --name-status` prints for a rename: three tab-separated fields,
/// the first starting with `'R'`.
pub open spec fn is_rename_line(l: Seq<char>) -> bool {
    let f = split_char(l, '\t');
    f.len() == 3 && f[0].len() > 0 && f[0][0] == 'R'
}

/// The number of rename lines in `ls[..n]`.
pub open spec fn rename_line_count(ls: Seq<Seq<char>>, n: int) -> nat
    decreases n,
{
    if n <= 0 || n > ls.len() {
        0
    } else {
        rename_line_count(ls, n - 1) + if is_rename_line(ls[n - 1]) {
            1nat
        } else {
            0nat
        }
    }
}

/// The score written in a rename line, after its `'R'`.
pub open spec fn score_text(l: Seq<char>) -> Seq<char> {
    split_char(l, '\t')[0].drop_first()
}

/// Every rename line gives a candidate, whatever its score: when the renames are read, there
/// are as many as there are rename lines; and they are read whenever every rename line's
/// score is a number from 0 to 255.
pub proof fn lemma_renames_one_per_line(ls: Seq<Seq<char>>, n: int)
    requires
        0 <= n <= ls.len(),
    ensures
        renames_in(ls, n) matches Ok(found) ==> found.len() == rename_line_count(ls, n),
        (forall|k: int|
            0 <= k < n && is_rename_line(#[trigger] ls[k]) ==> parse_uint(score_text(ls[k]), 255) is Ok)
            ==> renames_in(ls, n) is Ok,
    decreases n,
{
    if n > 0 {
        lemma_renames_one_per_line(ls, n - 1);
    }
}

proof fn lemma_renames_prefix(ls: Seq<Seq<char>>, l: Seq<char>, n: int)
    requires
        0 <= n <= ls.len(),
    ensures
        renames_in(ls.push(l), n) == renames_in(ls, n),
    decreases n,
{
    if n > 0 {
        lemma_renames_prefix(ls, l, n - 1);
        assert(ls.push(l)[n - 1] == ls[n - 1]);
    }
}

/// A rename line `R<score>\t<old>\t<new>` whose score is a number from 0 to 255 adds the
/// candidate (old, new, score) after those of the lines before it, whatever the score.
pub proof fn lemma_rename_line_read(
    ls: Seq<Seq<char>>,
    score: Seq<char>,
    old_path: Seq<char>,
    new_path: Seq<char>,
)
    requires
        parse_uint(score, 255) is Ok,
        forall|i: int| 0 <= i < old_path.len() ==> old_path[i] != '\t',
        forall|i: int| 0 <= i < new_path.len() ==> new_path[i] != '\t',
    ensures
        ({
            let l = seq!['R'] + score + seq!['\t'] + old_path + seq!['\t'] + new_path;
            let s = parse_uint(score, 255)->Ok_0;
            renames_in(ls.push(l), ls.len() + 1int) == match renames_in(ls, ls.len() as int) {
                Ok(found) => Ok(found.push((old_path, new_path, s as u8))),
                Err(e) => Err::<Seq<RenameView>, Seq<char>>(e),
            }
        }),
{
    let t = seq!['\t'];
    let head = seq!['R'] + score;
    let l = head + t + old_path + t + new_path;
    crate::string_formating::commands::lemma_parse_uint_chars(score, 255);
    assert forall|i: int| 0 <= i < head.len() implies head[i] != '\t' by {
        if i > 0 {
            assert(head[i] == score[i - 1]);
        }
    }
    lemma_split_plain(head, '\t');
    lemma_split_plain(old_path, '\t');
    lemma_split_plain(new_path, '\t');
    lemma_split_join(head, old_path, '\t');
    lemma_split_join(head + t + old_path, new_path, '\t');
    let f = split_char(l, '\t');
    assert(f =~= seq![head, old_path, new_path]);
    assert(head.drop_first() =~= score);
    lemma_renames_prefix(ls, l, ls.len() as int);
    assert(ls.push(l)[ls.len() as int] == l);
}

/// The view of a rename candidate.
pub open spec fn candidate_view(c: RenameCandidate) -> RenameView {
    (c.old_path@, c.new_path@, c.score)
}

/// The renames that `git diff --cached --find-renames=<t>% --name-status HEAD` printed, in
/// order.
pub fn parse_rename_candidates(diff_text: &str) -> (r: Result<Vec<RenameCandidate>, String>)
    ensures
        match renames_in(lines(diff_text@), lines(diff_text@).len() as int) {
            Ok(found) => r matches Ok(cs) && cs@.map_values(|c: RenameCandidate| candidate_view(c))
                == found,
            Err(m) => r matches Err(e) && e@ == m,
        },
{
    let ls = split_lines(diff_text);
    let ghost lv = lines(diff_text@);
    let mut out: Vec<RenameCandidate> = Vec::new();
    assert(out@.map_values(|c: RenameCandidate| candidate_view(c)) =~= Seq::<RenameView>::empty());
    let mut i: usize = 0;
    while i < ls.len()
        invariant
            i <= ls@.len(),
            views(ls@) == lv,
            lv == lines(diff_text@),
            renames_in(lv, i as int) == Ok::<Seq<RenameView>, Seq<char>>(
                out@.map_values(|c: RenameCandidate| candidate_view(c)),
            ),
        decreases ls@.len() - i,
    {
        assert(views(ls@)[i as int] == ls@[i as int]@);
        let v = chars_of(ls[i].as_str());
        let fields = split_on(&v, '\t');
        proof {
            assert(v@ == lv[i as int]);
            if fields@.len() == 3 {
                assert(fields@[0]@ == split_char(lv[i as int], '\t')[0]);
                assert(fields@[1]@ == split_char(lv[i as int], '\t')[1]);
                assert(fields@[2]@ == split_char(lv[i as int], '\t')[2]);
            }
        }
        if fields.len() == 3 && fields[0].len() > 0 && fields[0][0] == 'R' {
            let n0 = fields[0].len();
            match parse_uint_range(&fields[0], 1, n0, 255) {
                Ok(score) => {
                    let ghost before = out@.map_values(|c: RenameCandidate| candidate_view(c));
                    assert(fields@[0]@.subrange(1, n0 as int) =~= fields@[0]@.drop_first());
                    let c = RenameCandidate {
                        old_path: string_of(&fields[1]),
                        new_path: string_of(&fields[2]),
                        score: score as u8,
                    };
                    out.push(c);
                    assert(out@.map_values(|c: RenameCandidate| candidate_view(c)) =~= before.push(
                        (fields@[1]@, fields@[2]@, score as u8),
                    ));
                },
                Err(k) => {
                    assert(fields@[0]@.subrange(1, n0 as int) =~= fields@[0]@.drop_first());
                    let m = int_error_message(k);
                    let mut e = String::from_str("Failed to parse score: ");
                    e.append(m.as_str());
                    proof {
                        assert(renames_in(lv, i + 1) == Err::<Seq<RenameView>, Seq<char>>(e@));
                        lemma_renames_err_persists(lv, i + 1, lv.len() as int);
                    }
                    return Err(e);
                },
            }
        }
        i = i + 1;
    }
    Ok(out)
}

/// What to do after one attempt at undoing `git add`.
pub enum RestoreStep {
    /// Stop with this result.
    Finish(Result<String, String>),
    /// Wait this many milliseconds, then try again.
    RetryAfter(u64),
}

/// After attempt `attempt` (counted from 1) of at most `max_attempts` at running
/// `git restore --staged .`: a success ends the retries with its output; a failure is
/// retried after 150 ms, except after the last attempt, which ends them with
/// `cannot undo git add due to: <error>`.
pub fn restore_step(attempt: u32, max_attempts: u32, outcome: Result<String, String>) -> (s:
    RestoreStep)
    requires
        1 <= attempt <= max_attempts,
    ensures
        match outcome {
            Ok(t) => s matches RestoreStep::Finish(Ok(rt)) && rt@ == t@,
            Err(e) => if attempt == max_attempts {
                s matches RestoreStep::Finish(Err(m)) && m@ == "cannot undo git add due to: "@
                    + e@
            } else {
                s == RestoreStep::RetryAfter(150)
            },
        },
{
    match outcome {
        Ok(t) => RestoreStep::Finish(Ok(t)),
        Err(e) => {
            if attempt == max_attempts {
                let mut m = String::from_str("cannot undo git add due to: ");
                m.append(e.as_str());
                RestoreStep::Finish(Err(m))
            } else {
                RestoreStep::RetryAfter(150)
            }
        },
    }
}

// ---------------------------------------------------------------------------------------------
// Detecting renames: stage everything, diff against the last commit, unstage again
// ---------------------------------------------------------------------------------------------

/// How many times unstaging is tried before it is given up.
pub const RESTORE_ATTEMPTS: u32 = 100;

/// Where rename detection stands.
pub enum RenameState {
    /// `git add -A` runs.
    Adding,
    /// `git diff --cached --find-renames=<t>% --name-status HEAD` runs.
    Diffing,
    /// `git restore --staged .` runs for the given time (counted from 1); the diff's outcome
    /// waits to be read.
    Restoring { attempt: u32, diff: Result<GitOutput, String> },
    /// A pause before unstaging again.
    WaitingToRestore { attempt: u32, diff: Result<GitOutput, String> },
    /// Nothing is left to do.
    Done,
}

/// What the caller does next.
pub enum RenameAction {
    /// Run `git` with these arguments in the project's root.
    Git(Vec<String>),
    /// Wait this many milliseconds.
    Sleep(u64),
    /// Stop with this result.
    Finish(Result<Vec<RenameCandidate>, String>),
}

/// What happened to the last action.
pub enum RenameEvent {
    /// The command ran.
    Ran(GitOutput),
    /// The command could not be started; the text of the error.
    NotStarted(String),
    /// The pause is over.
    Slept,
}

/// A view of an action.
pub ghost enum RenameActionView {
    Git(Seq<Seq<char>>),
    Sleep(nat),
    Finish(Result<Seq<RenameView>, Seq<char>>),
}

pub open spec fn rename_action_view(a: RenameAction) -> RenameActionView {
    match a {
        RenameAction::Git(args) => RenameActionView::Git(views(args@)),
        RenameAction::Sleep(ms) => RenameActionView::Sleep(ms as nat),
        RenameAction::Finish(r) => RenameActionView::Finish(
            match r {
                Ok(cs) => Ok(cs@.map_values(|c: RenameCandidate| candidate_view(c))),
                Err(e) => Err(e@),
            },
        ),
    }
}

/// `git add -A`.
pub open spec fn add_all_args() -> Seq<Seq<char>> {
    seq!["add"@, "-A"@]
}

/// `git diff --cached --find-renames=<threshold>% --name-status HEAD`.
pub open spec fn diff_args(threshold: u8) -> Seq<Seq<char>> {
    seq![
        "diff"@,
        "--cached"@,
        "--find-renames="@ + dec(threshold as nat) + "%"@,
        "--name-status"@,
        "HEAD"@,
    ]
}

/// What the diff's outcome gives: the command's error, the error output of a failed diff
/// (after `Git diff commit failed: `), or the renames it printed.
pub open spec fn diff_renames(diff: Result<GitOutput, String>) -> Result<Seq<RenameView>, Seq<char>> {
    match diff {
        Err(m) => Err(m@),
        Ok(o) => match command_text_of(o, "Git diff commit failed: "@) {
            Err(e) => Err(e),
            Ok(t) => renames_in(lines(t), lines(t).len() as int),
        },
    }
}

/// The outcome of one unstaging attempt: its output, or why it failed.
pub open spec fn restore_outcome(e: RenameEvent) -> Result<Seq<char>, Seq<char>> {
    match e {
        RenameEvent::Ran(o) => command_text_of(o, "Git restore failed: "@),
        RenameEvent::NotStarted(m) => Err(m@),
        RenameEvent::Slept => Err(seq![]),
    }
}

/// The event is one that the state waits for.
pub open spec fn rename_event_fits(s: RenameState, e: RenameEvent) -> bool {
    match s {
        RenameState::WaitingToRestore { .. } => e is Slept,
        RenameState::Done => false,
        _ => e is Ran || e is NotStarted,
    }
}

/// The states that detection can be in: unstaging is tried at most `RESTORE_ATTEMPTS` times.
pub open spec fn rename_wf(s: RenameState) -> bool {
    match s {
        RenameState::Restoring { attempt, .. } => 1 <= attempt <= RESTORE_ATTEMPTS,
        RenameState::WaitingToRestore { attempt, .. } => 2 <= attempt <= RESTORE_ATTEMPTS,
        _ => true,
    }
}

/// Where rename detection goes from `s` on event `e`, and what the caller does next:
/// - `git add -A`; a command that cannot be started stops with its error, a failed one with
///   `Git add failed: <error>`;
/// - the diff runs, and whatever its outcome, `git restore --staged .` follows;
/// - unstaging is tried up to `RESTORE_ATTEMPTS` times, 150 ms apart; when the last try
///   fails, detection stops with `cannot undo git add due to: <error>`;
/// - once unstaged, the diff's outcome decides the result (`diff_renames`).
pub open spec fn rename_next(threshold: u8, s: RenameState, e: RenameEvent) -> (
    RenameState,
    RenameActionView,
) {
    let stop = |r: Result<Seq<RenameView>, Seq<char>>| (
        RenameState::Done,
        RenameActionView::Finish(r),
    );
    match s {
        RenameState::Adding => match e {
            RenameEvent::Ran(o) => if o.success {
                (RenameState::Diffing, RenameActionView::Git(diff_args(threshold)))
            } else {
                stop(Err(command_text_of(o, "Git add failed: "@)->Err_0))
            },
            RenameEvent::NotStarted(m) => stop(Err(m@)),
            RenameEvent::Slept => stop(Err(seq![])),
        },
        RenameState::Diffing => match e {
            RenameEvent::Ran(o) => (
                RenameState::Restoring { attempt: 1, diff: Ok(o) },
                RenameActionView::Git(restore_args()),
            ),
            RenameEvent::NotStarted(m) => (
                RenameState::Restoring { attempt: 1, diff: Err(m) },
                RenameActionView::Git(restore_args()),
            ),
            RenameEvent::Slept => stop(Err(seq![])),
        },
        RenameState::Restoring { attempt, diff } => match restore_outcome(e) {
            Ok(_) => stop(diff_renames(diff)),
            Err(msg) => if attempt >= RESTORE_ATTEMPTS {
                stop(Err("cannot undo git add due to: "@ + msg))
            } else {
                (
                    RenameState::WaitingToRestore { attempt: (attempt + 1) as u32, diff },
                    RenameActionView::Sleep(150),
                )
            },
        },
        RenameState::WaitingToRestore { attempt, diff } => (
            RenameState::Restoring { attempt, diff },
            RenameActionView::Git(restore_args()),
        ),
        RenameState::Done => stop(Err(seq![])),
    }
}

fn text(t: &str) -> (r: String)
    ensures
        r@ == t@,
{
    String::from_str(t)
}

fn restore_action() -> (a: RenameAction)
    ensures
        rename_action_view(a) == RenameActionView::Git(restore_args()),
{
    let args = vec![text("restore"), text("--staged"), text(".")];
    assert(views(args@) =~= restore_args());
    RenameAction::Git(args)
}

/// The first action of rename detection: `git add -A`.
pub fn rename_start() -> (r: (RenameState, RenameAction))
    ensures
        r.0 is Adding,
        rename_action_view(r.1) == RenameActionView::Git(add_all_args()),
{
    let args = vec![text("add"), text("-A")];
    assert(views(args@) =~= add_all_args());
    (RenameState::Adding, RenameAction::Git(args))
}

/// The renames that the diff's outcome gives (see `diff_renames`).
fn diff_result(diff: Result<GitOutput, String>) -> (r: Result<Vec<RenameCandidate>, String>)
    ensures
        match diff_renames(diff) {
            Ok(found) => r matches Ok(cs) && cs@.map_values(|c: RenameCandidate| candidate_view(c))
                == found,
            Err(m) => r matches Err(e) && e@ == m,
        },
{
    match diff {
        Err(m) => Err(m),
        Ok(o) => match command_text(o, "Git diff commit failed: ") {
            Err(e) => Err(e),
            Ok(t) => parse_rename_candidates(t.as_str()),
        },
    }
}

/// The next state and action of rename detection after event `e` in state `s`.
pub fn rename_step(threshold: u8, s: RenameState, e: RenameEvent) -> (r: (
    RenameState,
    RenameAction,
))
    requires
        rename_event_fits(s, e),
        rename_wf(s),
    ensures
        r.0 == rename_next(threshold, s, e).0,
        rename_action_view(r.1) == rename_next(threshold, s, e).1,
{
    match s {
        RenameState::Adding => match e {
            RenameEvent::Ran(o) => {
                if o.success {
                    let arg = find_renames_arg(threshold);
                    let args = vec![text("diff"), text("--cached"), arg, text("--name-status"), text("HEAD")];
                    assert(views(args@) =~= diff_args(threshold));
                    (RenameState::Diffing, RenameAction::Git(args))
                } else {
                    match command_text(o, "Git add failed: ") {
                        Err(m) => (RenameState::Done, RenameAction::Finish(Err(m))),
                        Ok(_) => (RenameState::Done, RenameAction::Finish(Err(String::new()))),
                    }
                }
            },
            RenameEvent::NotStarted(m) => (RenameState::Done, RenameAction::Finish(Err(m))),
            RenameEvent::Slept => (RenameState::Done, RenameAction::Finish(Err(String::new()))),
        },
        RenameState::Diffing => match e {
            RenameEvent::Ran(o) => (RenameState::Restoring { attempt: 1, diff: Ok(o) }, restore_action()),
            RenameEvent::NotStarted(m) => (
                RenameState::Restoring { attempt: 1, diff: Err(m) },
                restore_action(),
            ),
            RenameEvent::Slept => (RenameState::Done, RenameAction::Finish(Err(String::new()))),
        },
        RenameState::Restoring { attempt, diff } => {
            let ghost ev = e;
            let outcome = match e {
                RenameEvent::Ran(o) => command_text(o, "Git restore failed: "),
                RenameEvent::NotStarted(m) => Err(m),
                RenameEvent::Slept => Err(String::new()),
            };
            assert(crate::text::result_view(outcome) == restore_outcome(ev));
            match restore_step(attempt, RESTORE_ATTEMPTS, outcome) {
                RestoreStep::Finish(Ok(_)) => (RenameState::Done, RenameAction::Finish(diff_result(diff))),
                RestoreStep::Finish(Err(m)) => (RenameState::Done, RenameAction::Finish(Err(m))),
                RestoreStep::RetryAfter(ms) => (
                    RenameState::WaitingToRestore { attempt: attempt + 1, diff },
                    RenameAction::Sleep(ms),
                ),
            }
        },
        RenameState::WaitingToRestore { attempt, diff } => (
            RenameState::Restoring { attempt, diff },
            restore_action(),
        ),
        RenameState::Done => (RenameState::Done, RenameAction::Finish(Err(String::new()))),
    }
}

// ---------------------------------------------------------------------------------------------
// Laws of rename detection
// ---------------------------------------------------------------------------------------------

/// A measure of the work left: it falls with every step that does not stop.
pub open spec fn rename_rank(s: RenameState) -> int {
    match s {
        RenameState::Adding => 2 * RESTORE_ATTEMPTS + 4,
        RenameState::Diffing => 2 * RESTORE_ATTEMPTS + 3,
        RenameState::Restoring { attempt, .. } => 2 * (RESTORE_ATTEMPTS - attempt) + 2,
        RenameState::WaitingToRestore { attempt, .. } => 2 * (RESTORE_ATTEMPTS - attempt) + 3,
        RenameState::Done => 0,
    }
}

/// Rename detection always comes to an end: every step either stops or moves to a state of
/// lower rank, and unstaging is tried at most `RESTORE_ATTEMPTS` times.
pub proof fn lemma_rename_progress(threshold: u8, s: RenameState, e: RenameEvent)
    requires
        rename_event_fits(s, e),
        rename_wf(s),
    ensures
        rename_wf(rename_next(threshold, s, e).0),
        rename_next(threshold, s, e).1 is Finish <==> rename_next(threshold, s, e).0 is Done,
        rename_next(threshold, s, e).1 is Finish || (0 < rename_rank(rename_next(threshold, s, e).0)
            < rename_rank(s)),
{
}

/// Once `git add -A` has succeeded, the index is always unstaged before detection stops:
/// a successful add is followed by the diff, the diff (whatever its outcome) by
/// `git restore --staged .`, a pause by another try of it, and detection stops only right
/// after an unstaging try — with the diff's result when the try succeeded, or with
/// `cannot undo git add due to: <error>` when the last allowed try failed.
pub proof fn lemma_rename_unstages_after_add(threshold: u8, s: RenameState, e: RenameEvent)
    requires
        rename_event_fits(s, e),
        rename_wf(s),
    ensures
        (s is Adding && (e matches RenameEvent::Ran(o) && o.success)) ==> rename_next(
            threshold,
            s,
            e,
        ).1 == RenameActionView::Git(diff_args(threshold)),
        s is Diffing ==> rename_next(threshold, s, e).1 == RenameActionView::Git(restore_args()),
        s is WaitingToRestore ==> rename_next(threshold, s, e).1 == RenameActionView::Git(
            restore_args(),
        ),
        (rename_next(threshold, s, e).1 is Finish && !(s is Adding)) ==> s is Restoring,
        s matches RenameState::Restoring { attempt, diff } ==> (match restore_outcome(e) {
            Ok(_) => rename_next(threshold, s, e).1 == RenameActionView::Finish(
                diff_renames(diff),
            ),
            Err(m) => rename_next(threshold, s, e).1 == if attempt == RESTORE_ATTEMPTS {
                RenameActionView::Finish(Err("cannot undo git add due to: "@ + m))
            } else {
                RenameActionView::Sleep(150)
            },
        }),
{
}

} // verus!
