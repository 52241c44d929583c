//! Stamping a version: commit and tag a file, then bring the database and the asset's log up
//! to date, retrying the whole sequence when a step fails.
use vstd::prelude::*;

use crate::config::{MAX_RETRY_ATTEMPTS, RETRY_DELAY};
use crate::string_formating::helper::{get_assetid_version_tag, invalid_tag_text, tag_parts};
use crate::text::{chars_of, concat2, dec, u64_to_dec, views};

verus! {

/// A request to stamp `relative_file_path` with `tag`.
pub struct StampRequest {
    pub tag: String,
    pub relative_file_path: String,
}

/// The step that stamping is at within one attempt.
#[derive(Clone, Copy, Debug, PartialEq, Eq, Structural)]
pub enum StampPhase {
    /// The tags of the asset are listed.
    ListingTags,
    /// The tag exists already: the latest tag of the file is read.
    CheckingLatestTag,
    /// The file is staged, committed and tagged.
    Staging,
    /// The database row of the asset is written.
    UpdatingDb,
    /// The asset's log is brought up to date.
    UpdatingLog,
    /// The file's rename link is removed.
    DeletingLink,
    /// A pause before the next attempt.
    Waiting,
    /// Nothing is left to do.
    Done,
}

/// Where stamping stands: the asset, the attempt (counted from 0), the error of the last
/// failed attempt, and the step.
pub struct StampState {
    pub asset_id: String,
    pub attempt: u64,
    pub last_error: String,
    pub phase: StampPhase,
}

/// What the caller does next.
pub enum StampAction {
    /// List the tags of this asset.
    ListTags(String),
    /// Read the latest tag of the file.
    LatestTagOfFile,
    /// Stage, commit and tag the file.
    StageCommitTag,
    /// Write the asset's row in the database.
    UpdateDb,
    /// Bring the log of this asset up to date.
    UpdateLog(String),
    /// Remove the file's rename link.
    DeleteLink,
    /// Wait this many milliseconds.
    Sleep(u64),
    /// Stop with this result.
    Finish(Result<(), String>),
}

/// What happened to the last action.
pub enum StampEvent {
    Tags(Result<Vec<String>, String>),
    LatestTag(Result<String, String>),
    Staged(Result<String, String>),
    Updated(Result<(), String>),
    Slept,
}

/// A view of an action.
pub ghost enum StampActionView {
    ListTags(Seq<char>),
    LatestTagOfFile,
    StageCommitTag,
    UpdateDb,
    UpdateLog(Seq<char>),
    DeleteLink,
    Sleep(nat),
    Finish(Result<(), Seq<char>>),
}

/// A view of the state: asset, attempt, last error, step.
pub type StampStateView = (Seq<char>, nat, Seq<char>, StampPhase);

pub open spec fn stamp_state_view(s: StampState) -> StampStateView {
    (s.asset_id@, s.attempt as nat, s.last_error@, s.phase)
}

pub open spec fn stamp_action_view(a: StampAction) -> StampActionView {
    match a {
        StampAction::ListTags(x) => StampActionView::ListTags(x@),
        StampAction::LatestTagOfFile => StampActionView::LatestTagOfFile,
        StampAction::StageCommitTag => StampActionView::StageCommitTag,
        StampAction::UpdateDb => StampActionView::UpdateDb,
        StampAction::UpdateLog(x) => StampActionView::UpdateLog(x@),
        StampAction::DeleteLink => StampActionView::DeleteLink,
        StampAction::Sleep(ms) => StampActionView::Sleep(ms as nat),
        StampAction::Finish(r) => StampActionView::Finish(
            match r {
                Ok(_) => Ok(()),
                Err(e) => Err(e@),
            },
        ),
    }
}

/// The error kept before any attempt failed.
pub open spec fn initial_error() -> Seq<char> {
    "Operation failed: loop exhausted without completing all steps."@
}

/// How stamping starts: the asset id is read from the tag (a tag without `"-v"` stops it at
/// once); then the asset's tags are listed.
pub open spec fn stamp_begin(tag: Seq<char>) -> (StampStateView, StampActionView) {
    match tag_parts(tag) {
        None => (
            (seq![], 0, seq![], StampPhase::Done),
            StampActionView::Finish(Err(invalid_tag_text(tag))),
        ),
        Some((a, _)) => ((a, 0, initial_error(), StampPhase::ListingTags), StampActionView::ListTags(a)),
    }
}

/// The message when the tag exists but does not mark the file's latest commit.
pub open spec fn fatal_text(req: StampRequest) -> Seq<char> {
    "FATAL: Tag '"@ + req.tag@ + "' already exists, but target path '"@
        + req.relative_file_path@ + "' is not committed under it."@
}

/// What stamping does after a step of attempt `attempt` failed with `msg`: another attempt
/// after a pause, or, after the last attempt, a stop with the last error.
pub open spec fn stamp_retry(asset: Seq<char>, attempt: nat, msg: Seq<char>) -> (
    StampStateView,
    StampActionView,
) {
    if attempt + 1 < MAX_RETRY_ATTEMPTS {
        ((asset, attempt + 1, msg, StampPhase::Waiting), StampActionView::Sleep(RETRY_DELAY as nat))
    } else {
        (
            (asset, attempt, msg, StampPhase::Done),
            StampActionView::Finish(
                Err(
                    "Commit stamp failed after "@ + dec(MAX_RETRY_ATTEMPTS as nat)
                        + " attempts. Last error: "@ + msg,
                ),
            ),
        )
    }
}

/// `e` begins with `"FATAL"`.
pub open spec fn is_fatal(e: Seq<char>) -> bool {
    e.len() >= 5 && e.take(5) == "FATAL"@
}

/// The event is one that the step waits for.
pub open spec fn stamp_event_fits(p: StampPhase, e: StampEvent) -> bool {
    match p {
        StampPhase::ListingTags => e is Tags,
        StampPhase::CheckingLatestTag => e is LatestTag,
        StampPhase::Staging => e is Staged,
        StampPhase::UpdatingDb => e is Updated,
        StampPhase::UpdatingLog => e is Updated,
        StampPhase::DeletingLink => e is Updated,
        StampPhase::Waiting => e is Slept,
        StampPhase::Done => false,
    }
}

/// Where stamping goes from `s` on event `e`, and what the caller does next. Within an
/// attempt: list the asset's tags (an error stops stamping); if the tag exists, the file's
/// latest tag must be it (otherwise stop with the FATAL message), else stage, commit and tag
/// the file (a FATAL error stops stamping); then update the database, the log and the link.
/// A failed step starts another attempt after a pause, up to `MAX_RETRY_ATTEMPTS` attempts.
pub open spec fn stamp_next(req: StampRequest, s: StampState, e: StampEvent) -> (
    StampStateView,
    StampActionView,
) {
    let a = s.asset_id@;
    let n = s.attempt as nat;
    let last = s.last_error@;
    let stop = |r: Result<(), Seq<char>>| ((a, n, last, StampPhase::Done), StampActionView::Finish(r));
    match (s.phase, e) {
        (StampPhase::ListingTags, StampEvent::Tags(Err(m))) => stop(Err(m@)),
        (StampPhase::ListingTags, StampEvent::Tags(Ok(list))) => if views(list@).contains(
            req.tag@,
        ) {
            ((a, n, last, StampPhase::CheckingLatestTag), StampActionView::LatestTagOfFile)
        } else {
            ((a, n, last, StampPhase::Staging), StampActionView::StageCommitTag)
        },
        (StampPhase::CheckingLatestTag, StampEvent::LatestTag(r)) => match r {
            Ok(t) => if t@ == req.tag@ {
                ((a, n, last, StampPhase::UpdatingDb), StampActionView::UpdateDb)
            } else {
                stop(Err(fatal_text(req)))
            },
            Err(_) => stop(Err(fatal_text(req))),
        },
        (StampPhase::Staging, StampEvent::Staged(r)) => match r {
            Ok(_) => ((a, n, last, StampPhase::UpdatingDb), StampActionView::UpdateDb),
            Err(m) => if is_fatal(m@) {
                stop(Err(m@))
            } else {
                stamp_retry(a, n, m@)
            },
        },
        (StampPhase::UpdatingDb, StampEvent::Updated(r)) => match r {
            Ok(_) => ((a, n, last, StampPhase::UpdatingLog), StampActionView::UpdateLog(a)),
            Err(m) => stamp_retry(a, n, "Database update failed: "@ + m@),
        },
        (StampPhase::UpdatingLog, StampEvent::Updated(r)) => match r {
            Ok(_) => ((a, n, last, StampPhase::DeletingLink), StampActionView::DeleteLink),
            Err(m) => stamp_retry(a, n, "Log markdown update failed: "@ + m@),
        },
        (StampPhase::DeletingLink, StampEvent::Updated(r)) => match r {
            Ok(_) => stop(Ok(())),
            Err(m) => stamp_retry(a, n, "Database delete link failed: "@ + m@),
        },
        (StampPhase::Waiting, StampEvent::Slept) => (
            (a, n, last, StampPhase::ListingTags),
            StampActionView::ListTags(a),
        ),
        _ => stop(Err(seq![])),
    }
}

/// The first state and action of stamping `tag`.
pub fn stamp_start(tag: &str) -> (r: (StampState, StampAction))
    ensures
        (stamp_state_view(r.0), stamp_action_view(r.1)) == stamp_begin(tag@),
{
    match get_assetid_version_tag(tag) {
        Err(e) => (
            StampState {
                asset_id: String::new(),
                attempt: 0,
                last_error: String::new(),
                phase: StampPhase::Done,
            },
            StampAction::Finish(Err(e)),
        ),
        Ok((a, _)) => {
            let listed = a.clone();
            (
                StampState {
                    asset_id: a,
                    attempt: 0,
                    last_error: String::from_str(
                        "Operation failed: loop exhausted without completing all steps.",
                    ),
                    phase: StampPhase::ListingTags,
                },
                StampAction::ListTags(listed),
            )
        },
    }
}

/// Whether `list` holds `x`.
fn list_holds(list: &Vec<String>, x: &String) -> (b: bool)
    ensures
        b == views(list@).contains(x@),
{
    let mut k: usize = 0;
    while k < list.len()
        invariant
            k <= list@.len(),
            forall|m: int| 0 <= m < k ==> list@[m]@ != x@,
        decreases list@.len() - k,
    {
        if list[k] == *x {
            assert(views(list@)[k as int] == x@);
            return true;
        }
        k = k + 1;
    }
    assert forall|m: int| 0 <= m < views(list@).len() implies views(list@)[m] != x@ by {
        assert(views(list@)[m] == list@[m]@);
    }
    false
}

/// Whether `e` begins with `"FATAL"`.
fn starts_fatal(e: &String) -> (b: bool)
    ensures
        b == is_fatal(e@),
{
    let v = chars_of(e.as_str());
    proof {
        reveal_strlit("FATAL");
    }
    if v.len() >= 5 && v[0] == 'F' && v[1] == 'A' && v[2] == 'T' && v[3] == 'A' && v[4] == 'L' {
        assert(e@.take(5) =~= "FATAL"@);
        true
    } else {
        proof {
            if e@.len() >= 5 && e@.take(5) == "FATAL"@ {
                assert(e@.take(5)[0] == 'F');
                assert(e@.take(5)[1] == 'A');
                assert(e@.take(5)[2] == 'T');
                assert(e@.take(5)[3] == 'A');
                assert(e@.take(5)[4] == 'L');
            }
        }
        false
    }
}

/// Another attempt after a failed step, or the final error.
fn retry(asset_id: String, attempt: u64, msg: String) -> (r: (StampState, StampAction))
    requires
        attempt < MAX_RETRY_ATTEMPTS,
    ensures
        (stamp_state_view(r.0), stamp_action_view(r.1)) == stamp_retry(
            asset_id@,
            attempt as nat,
            msg@,
        ),
{
    if attempt + 1 < MAX_RETRY_ATTEMPTS {
        (
            StampState { asset_id, attempt: attempt + 1, last_error: msg, phase: StampPhase::Waiting },
            StampAction::Sleep(RETRY_DELAY),
        )
    } else {
        let mut m = String::from_str("Commit stamp failed after ");
        let d = u64_to_dec(MAX_RETRY_ATTEMPTS);
        m.append(d.as_str());
        m.append(" attempts. Last error: ");
        m.append(msg.as_str());
        (
            StampState { asset_id, attempt, last_error: msg, phase: StampPhase::Done },
            StampAction::Finish(Err(m)),
        )
    }
}

fn fatal_message(req: &StampRequest) -> (m: String)
    ensures
        m@ == fatal_text(*req),
{
    let mut m = String::from_str("FATAL: Tag '");
    m.append(req.tag.as_str());
    m.append("' already exists, but target path '");
    m.append(req.relative_file_path.as_str());
    m.append("' is not committed under it.");
    m
}

/// The next state and action of stamping after event `e` in state `s`.
pub fn stamp_step(req: &StampRequest, s: StampState, e: StampEvent) -> (r: (
    StampState,
    StampAction,
))
    requires
        stamp_event_fits(s.phase, e),
        s.attempt < MAX_RETRY_ATTEMPTS,
    ensures
        (stamp_state_view(r.0), stamp_action_view(r.1)) == stamp_next(*req, s, e),
{
    let StampState { asset_id, attempt, last_error, phase } = s;
    let keep = |p: StampPhase| -> (st: StampState)
        ensures
            st.asset_id@ == asset_id@ && st.attempt == attempt && st.last_error@ == last_error@
                && st.phase == p,
        { StampState { asset_id: asset_id.clone(), attempt, last_error: last_error.clone(), phase: p } };
    match (phase, e) {
        (StampPhase::ListingTags, StampEvent::Tags(Err(m))) => (
            keep(StampPhase::Done),
            StampAction::Finish(Err(m)),
        ),
        (StampPhase::ListingTags, StampEvent::Tags(Ok(list))) => {
            if list_holds(&list, &req.tag) {
                (keep(StampPhase::CheckingLatestTag), StampAction::LatestTagOfFile)
            } else {
                (keep(StampPhase::Staging), StampAction::StageCommitTag)
            }
        },
        (StampPhase::CheckingLatestTag, StampEvent::LatestTag(r)) => match r {
            Ok(t) => {
                if t == req.tag {
                    (keep(StampPhase::UpdatingDb), StampAction::UpdateDb)
                } else {
                    (keep(StampPhase::Done), StampAction::Finish(Err(fatal_message(req))))
                }
            },
            Err(_) => (keep(StampPhase::Done), StampAction::Finish(Err(fatal_message(req)))),
        },
        (StampPhase::Staging, StampEvent::Staged(r)) => match r {
            Ok(_) => (keep(StampPhase::UpdatingDb), StampAction::UpdateDb),
            Err(m) => {
                if starts_fatal(&m) {
                    (keep(StampPhase::Done), StampAction::Finish(Err(m)))
                } else {
                    retry(asset_id.clone(), attempt, m)
                }
            },
        },
        (StampPhase::UpdatingDb, StampEvent::Updated(r)) => match r {
            Ok(_) => {
                let a = asset_id.clone();
                (keep(StampPhase::UpdatingLog), StampAction::UpdateLog(a))
            },
            Err(m) => retry(asset_id.clone(), attempt, concat2("Database update failed: ", m.as_str())),
        },
        (StampPhase::UpdatingLog, StampEvent::Updated(r)) => match r {
            Ok(_) => (keep(StampPhase::DeletingLink), StampAction::DeleteLink),
            Err(m) => retry(
                asset_id.clone(),
                attempt,
                concat2("Log markdown update failed: ", m.as_str()),
            ),
        },
        (StampPhase::DeletingLink, StampEvent::Updated(r)) => match r {
            Ok(_) => (keep(StampPhase::Done), StampAction::Finish(Ok(()))),
            Err(m) => retry(
                asset_id.clone(),
                attempt,
                concat2("Database delete link failed: ", m.as_str()),
            ),
        },
        (StampPhase::Waiting, StampEvent::Slept) => {
            let a = asset_id.clone();
            (keep(StampPhase::ListingTags), StampAction::ListTags(a))
        },
        _ => (keep(StampPhase::Done), StampAction::Finish(Err(String::new()))),
    }
}

// ---------------------------------------------------------------------------------------------
// Laws of stamping
// ---------------------------------------------------------------------------------------------

/// The event reports that an update succeeded.
pub open spec fn updated_ok(e: StampEvent) -> bool {
    e matches StampEvent::Updated(Ok(_))
}

/// The rank of a step within an attempt; later steps rank lower.
pub open spec fn phase_rank(p: StampPhase) -> int {
    match p {
        StampPhase::Waiting => 7,
        StampPhase::ListingTags => 6,
        StampPhase::CheckingLatestTag => 5,
        StampPhase::Staging => 5,
        StampPhase::UpdatingDb => 4,
        StampPhase::UpdatingLog => 3,
        StampPhase::DeletingLink => 2,
        StampPhase::Done => 0,
    }
}

/// A measure of the work left: attempts still allowed, then the step within the attempt.
pub open spec fn stamp_rank(s: StampStateView) -> int {
    if s.3 == StampPhase::Done {
        0
    } else {
        8 * (MAX_RETRY_ATTEMPTS - s.1) + phase_rank(s.3)
    }
}

/// Stamping always comes to an end within `MAX_RETRY_ATTEMPTS` attempts: every step either
/// stops or moves to a state of lower rank whose attempt is still below the limit.
pub proof fn lemma_stamp_progress(req: StampRequest, s: StampState, e: StampEvent)
    requires
        stamp_event_fits(s.phase, e),
        s.attempt < MAX_RETRY_ATTEMPTS,
    ensures
        stamp_next(req, s, e).0.1 < MAX_RETRY_ATTEMPTS,
        stamp_next(req, s, e).1 is Finish <==> stamp_next(req, s, e).0.3 == StampPhase::Done,
        stamp_next(req, s, e).1 is Finish || (0 < stamp_rank(stamp_next(req, s, e).0)
            < stamp_rank(stamp_state_view(s))),
{
}

/// Stamping reports success only right after the link was removed; the link is removed only
/// right after the log was updated, and the log only right after the database row was
/// written, all within one attempt.
pub proof fn lemma_stamp_success_needs_all_steps(req: StampRequest, s: StampState, e: StampEvent)
    requires
        stamp_event_fits(s.phase, e),
        s.attempt < MAX_RETRY_ATTEMPTS,
    ensures
        stamp_next(req, s, e).1 matches StampActionView::Finish(Ok(_)) ==> (s.phase
            == StampPhase::DeletingLink && updated_ok(e)),
        stamp_next(req, s, e).0.3 == StampPhase::DeletingLink ==> (s.phase
            == StampPhase::UpdatingLog && updated_ok(e) && stamp_next(req, s, e).0.1 == s.attempt),
        stamp_next(req, s, e).0.3 == StampPhase::UpdatingLog ==> (s.phase == StampPhase::UpdatingDb
            && updated_ok(e) && stamp_next(req, s, e).0.1 == s.attempt),
{
}

/// An error of staging that begins with `"FATAL"` is never retried.
pub proof fn lemma_stamp_fatal_stops(req: StampRequest, s: StampState, m: String)
    requires
        s.phase == StampPhase::Staging,
        s.attempt < MAX_RETRY_ATTEMPTS,
        is_fatal(m@),
    ensures
        stamp_next(req, s, StampEvent::Staged(Err(m))).1 == StampActionView::Finish(
            Err(m@),
        ),
{
}

/// When the tag to stamp exists already, stamping goes on only if the file's latest tag is
/// exactly that tag: then the database row is written next; any other answer, an error
/// (such as the file's latest commit carrying no tag) included, stops stamping at once with
/// `FATAL: Tag '<tag>' already exists, but target path '<path>' is not committed under it.`
pub proof fn lemma_stamp_existing_tag_needs_file(
    req: StampRequest,
    s: StampState,
    latest: Result<String, String>,
)
    requires
        s.phase == StampPhase::CheckingLatestTag,
    ensures
        ({
            let next = stamp_next(req, s, StampEvent::LatestTag(latest));
            let marks_file = latest matches Ok(t) && t@ == req.tag@;
            &&& marks_file ==> next.0.3 == StampPhase::UpdatingDb && next.1
                == StampActionView::UpdateDb
            &&& !marks_file ==> next.0.3 == StampPhase::Done && next.1 == StampActionView::Finish(
                Err(
                    "FATAL: Tag '"@ + req.tag@ + "' already exists, but target path '"@
                        + req.relative_file_path@ + "' is not committed under it."@,
                ),
            )
            &&& next.0.1 == s.attempt
        }),
{
}

} // verus!
