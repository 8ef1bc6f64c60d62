//! The one observer of a session's exit: what it settles on the record, and what it
//! owes afterwards.

use vstd::prelude::*;
use vstd::string::*;
use crate::model::{entered, Moment, Pass, Session, SessionId, State, MAIN};
use crate::sessions::{apart, locate, seat, seated};
use crate::spawn::PENDING_WORKTREE;
use crate::text::{as_deref, opt_str, opt_text, same};

verus! {

/// A run that is over: which session, what it ran, and whether it asked for its checks
/// to be handed on.
#[derive(Debug)]
pub struct RunExit {
    pub session: SessionId,
    pub pass: Pass,
    pub hand_off: bool,
}

/// What settling an exit found.
pub struct Settled {
    /// Where the session was, if it was still on record.
    pub workspace: Option<String>,
    /// The run that is over, if it was one.
    pub ended: Option<RunExit>,
    /// The PR that the run owed proposals to, if it owed any.
    pub posting_for: Option<u64>,
    /// Where to find the transcript of a session that is forgotten outright.
    pub forget: Option<(String, Option<String>)>,
}

/// Whether the record under an id has another terminal by now: the observer of the one
/// that ended is not the one to settle it.
pub open spec fn is_stale(list: Seq<Session>, id: SessionId, handle: u64) -> bool {
    seated(list, id) && (list[seat(list, id)].pty matches Some(p) && p.handle != handle)
}

/// Whether a session leaves nothing to come back to: not a run, and never a turn.
pub open spec fn is_forgotten(s: Session) -> bool {
    s.pass is None && !s.had_a_turn
}

/// A session whose terminal has ended, with the transcript that was found for it.
pub open spec fn ended_as(s: Session, transcript: Option<String>, now: Moment) -> Session {
    Session {
        transcript_path: transcript,
        ..if s.state.live() {
            entered(s, State::Exited, now)
        } else {
            s
        }
    }
}

pub open spec fn settled_as(s: Session, transcript: Option<String>, r: Settled) -> bool {
    &&& r.workspace == Some(s.workspace)
    &&& r.ended == match s.pass {
        Some(pass) => Some(RunExit { session: s.id, pass, hand_off: s.fix_pr_on_exit }),
        None => None,
    }
    &&& r.posting_for == match s.pass {
        Some(pass) => if pass.command@ == Pass::REVIEW@ {
            Some(pass.pr)
        } else {
            None
        },
        None => None,
    }
    &&& r.forget == if is_forgotten(s) {
        Some((s.cwd, transcript))
    } else {
        None
    }
}

/// Settle the record of a session whose terminal `handle` ended, unless that record has
/// another terminal by now. `transcript` is where its conversation was last found.
pub fn watch_session_exit(
    list: &mut Vec<Session>,
    id: SessionId,
    handle: u64,
    transcript: Option<String>,
    now: Moment,
) -> (r: Option<Settled>)
    ensures
        apart(old(list)@) ==> apart(final(list)@),
        is_stale(old(list)@, id, handle) ==> r is None && final(list)@ == old(list)@,
        !is_stale(old(list)@, id, handle) && !seated(old(list)@, id) ==> final(list)@ == old(
            list,
        )@ && r == Some(
            Settled { workspace: None, ended: None, posting_for: None, forget: None },
        ),
        !is_stale(old(list)@, id, handle) && seated(old(list)@, id) ==> {
            let i = seat(old(list)@, id);
            let s = old(list)@[i];
            &&& r is Some
            &&& settled_as(s, transcript, r->Some_0)
            &&& final(list)@ == if is_forgotten(s) {
                old(list)@.remove(i)
            } else {
                old(list)@.update(i, ended_as(s, transcript, now))
            }
        },
{
    let i: usize = match locate(list, id) {
        Some(i) => i,
        None => {
            return Some(
                Settled { workspace: None, ended: None, posting_for: None, forget: None },
            );
        },
    };
    match list[i].pty {
        Some(p) => {
            if p.handle != handle {
                return None;
            }
        },
        None => {},
    }
    let mut posting_for: Option<u64> = None;
    let mut ended: Option<RunExit> = None;
    match &list[i].pass {
        Some(pass) => {
            if Pass::posts_proposals(pass.command.as_str()) {
                posting_for = Some(pass.pr);
            }
            ended =
            Some(
                RunExit {
                    session: list[i].id,
                    pass: pass.clone(),
                    hand_off: list[i].fix_pr_on_exit,
                },
            );
        },
        None => {},
    }
    let workspace: Option<String> = Some(list[i].workspace.clone());
    if list[i].pass.is_none() && !list[i].had_a_turn {
        let forget: Option<(String, Option<String>)> = Some((list[i].cwd.clone(), transcript));
        let _ = list.remove(i);
        return Some(Settled { workspace, ended, posting_for, forget });
    }
    let s: &mut Session = &mut list[i];
    if s.state.is_live() {
        s.set_state(State::Exited, now);
    }
    s.transcript_path = transcript;
    Some(Settled { workspace, ended, posting_for, forget: None })
}

/// A stale observer changes nothing, whatever the terminal it watched did; a run is
/// never forgotten; and a session that stays on record is no longer live.
pub proof fn an_exit_settles_only_its_own(
    list: Seq<Session>,
    id: SessionId,
    handle: u64,
    transcript: Option<String>,
    now: Moment,
)
    requires
        seated(list, id),
    ensures
        (list[seat(list, id)].pty matches Some(p) && p.handle == handle) ==> !is_stale(
            list,
            id,
            handle,
        ),
        list[seat(list, id)].pass is Some ==> !is_forgotten(list[seat(list, id)]),
        !ended_as(list[seat(list, id)], transcript, now).state.live(),
        ended_as(list[seat(list, id)], transcript, now).had_a_turn
            == list[seat(list, id)].had_a_turn,
{
}

/// An exit is settled by the observer of the terminal that ended: it is turned away exactly
/// where the record has another terminal by now, and not where the record has none.
pub proof fn an_exit_is_settled_by_its_own_observer(
    list: Seq<Session>,
    id: SessionId,
    handle: u64,
    i: int,
)
    requires
        0 <= i < list.len(),
        list[i].id == id,
        forall|k: int| 0 <= k < i ==> (#[trigger] list[k]).id != id,
    ensures
        is_stale(list, id, handle) <==> list[i].pty is Some && list[i].pty->Some_0.handle != handle,
{
    crate::sessions::lemma_seat(list, id, i);
}

/// A session that is no run and never had a turn is forgotten, and no other is. One that
/// stays is over from now on, unless it was over before, with its transcript where it was
/// found; and nothing else of it changes.
pub proof fn only_an_empty_session_is_forgotten(
    s: Session,
    transcript: Option<String>,
    now: Moment,
)
    ensures
        is_forgotten(s) <==> s.pass is None && !s.had_a_turn,
        ended_as(s, transcript, now).transcript_path == transcript,
        !(s.state is Exited) && !(s.state is Archived) ==> ended_as(s, transcript, now).state
            is Exited && ended_as(s, transcript, now).state_since == now,
        s.state is Exited || s.state is Archived ==> ended_as(s, transcript, now) == (Session {
            transcript_path: transcript,
            ..s
        }),
        ended_as(s, transcript, now) == (Session {
            transcript_path: transcript,
            state: ended_as(s, transcript, now).state,
            state_since: ended_as(s, transcript, now).state_since,
            ..s
        }),
{
}

/// What an exit is settled with is what the record said: where it was, which run it was and
/// whether that hands its checks on, whose proposals it owed, and what there is to delete of
/// one that is forgotten.
pub proof fn an_exit_is_settled_with_what_the_record_said(
    s: Session,
    transcript: Option<String>,
    r: Settled,
)
    requires
        settled_as(s, transcript, r),
    ensures
        r.workspace == Some(s.workspace),
        r.ended is Some <==> s.pass is Some,
        s.pass is Some ==> r.ended->Some_0.pass == s.pass->Some_0 && r.ended->Some_0.session == s.id
            && r.ended->Some_0.hand_off == s.fix_pr_on_exit,
        r.posting_for is Some <==> s.pass is Some && s.pass->Some_0.command@ == "review"@,
        r.posting_for is Some ==> r.posting_for->Some_0 == s.pass->Some_0.pr,
        r.forget is Some <==> s.pass is None && !s.had_a_turn,
        r.forget is Some ==> r.forget->Some_0 == (s.cwd, transcript),
{
}

// ---------------------------------------------------------------------------
// What an exit owes
// ---------------------------------------------------------------------------

/// Where a session that ended was.
#[derive(Debug, Clone, Copy, PartialEq, Eq, Structural)]
pub enum Place {
    /// No record was left to say.
    Unknown,
    Main,
    /// A worktree whose name was never reported.
    Pending,
    Tree,
}

pub open spec fn place(workspace: Option<Seq<char>>) -> Place {
    match workspace {
        None => Place::Unknown,
        Some(w) => if w == MAIN@ {
            Place::Main
        } else if w == PENDING_WORKTREE@ {
            Place::Pending
        } else {
            Place::Tree
        },
    }
}

pub fn place_of(workspace: Option<&str>) -> (r: Place)
    ensures
        r == place(opt_str(workspace)),
{
    match workspace {
        None => Place::Unknown,
        Some(w) => if same(w, MAIN) {
            Place::Main
        } else if same(w, PENDING_WORKTREE) {
            Place::Pending
        } else {
            Place::Tree
        },
    }
}

#[derive(Debug, Clone, Copy, PartialEq, Eq, Structural)]
pub enum Owed {
    /// Delete the transcript of a session that is forgotten.
    DeleteTranscript,
    /// Say what an agent that could not start said.
    ReportAgent,
    /// Remove the worktree it opened in, through the ordinary preflight.
    Teardown,
    /// Say that a run ended without the proposals it owed.
    WarnNothingPosted,
    /// Give main's claim back.
    ReleaseMain,
    /// Tell whoever started the run that it is over.
    PublishEnd,
    /// Stop the processes of a workspace that nobody is left in.
    StopProcesses,
    /// Send main back to its base.
    ParkMain,
    /// Measure the tree once more.
    Reconcile,
    Notify,
}

/// What is known of an exit once its record is settled.
#[derive(Debug, Clone, Copy, PartialEq, Eq, Structural)]
pub struct Ended {
    /// The session was forgotten outright.
    pub forgotten: bool,
    pub at: Place,
    /// The daemon removes worktrees by itself.
    pub reaps: bool,
    /// The run owed proposals that never came.
    pub unposted: bool,
    /// It was a run.
    pub run: bool,
    /// Another session is live in the same workspace.
    pub still_live: bool,
}

/// What is known of an exit: `keeps_days` is for how many days a worktree that nobody uses
/// is kept, none at all meaning for good, and `proposed` whether the PR it owed proposals
/// to has any.
pub open spec fn known_of_exit(
    settled: Settled,
    keeps_days: u64,
    proposed: bool,
    still_live: bool,
) -> Ended {
    Ended {
        forgotten: settled.forget is Some,
        at: place(opt_text(settled.workspace)),
        reaps: keeps_days > 0,
        unposted: settled.posting_for is Some && !proposed,
        run: settled.ended is Some,
        still_live,
    }
}

/// What is known of an exit once its record is settled.
pub fn after_exit(settled: &Settled, keeps_days: u64, proposed: bool, still_live: bool) -> (r: Ended)
    ensures
        r == known_of_exit(*settled, keeps_days, proposed, still_live),
{
    Ended {
        forgotten: settled.forget.is_some(),
        at: place_of(as_deref(&settled.workspace)),
        reaps: keeps_days > 0,
        unposted: settled.posting_for.is_some() && !proposed,
        run: settled.ended.is_some(),
        still_live,
    }
}

/// Whether an exit owes a thing.
pub open spec fn is_due(what: Owed, e: Ended) -> bool {
    match what {
        Owed::DeleteTranscript => e.forgotten,
        Owed::ReportAgent => e.forgotten,
        Owed::Teardown => e.forgotten && e.reaps && e.at == Place::Tree,
        Owed::WarnNothingPosted => e.unposted,
        Owed::ReleaseMain => true,
        Owed::PublishEnd => e.run,
        Owed::StopProcesses => e.at != Place::Unknown && !e.still_live,
        Owed::ParkMain => e.at == Place::Main && !e.still_live,
        Owed::Reconcile => e.at != Place::Unknown,
        Owed::Notify => true,
    }
}

fn due(what: Owed, e: Ended) -> (r: bool)
    ensures
        r == is_due(what, e),
{
    match what {
        Owed::DeleteTranscript => e.forgotten,
        Owed::ReportAgent => e.forgotten,
        Owed::Teardown => e.forgotten && e.reaps && e.at == Place::Tree,
        Owed::WarnNothingPosted => e.unposted,
        Owed::ReleaseMain => true,
        Owed::PublishEnd => e.run,
        Owed::StopProcesses => e.at != Place::Unknown && !e.still_live,
        Owed::ParkMain => e.at == Place::Main && !e.still_live,
        Owed::Reconcile => e.at != Place::Unknown,
        Owed::Notify => true,
    }
}

/// Which of two things owed comes first.
pub open spec fn turn(what: Owed) -> int {
    match what {
        Owed::DeleteTranscript => 0,
        Owed::ReportAgent => 1,
        Owed::Teardown => 2,
        Owed::WarnNothingPosted => 3,
        Owed::ReleaseMain => 4,
        Owed::PublishEnd => 5,
        Owed::StopProcesses => 6,
        Owed::ParkMain => 7,
        Owed::Reconcile => 8,
        Owed::Notify => 9,
    }
}

/// How far an exit is after the last thing that was done, if any was.
pub open spec fn turn_after(last: Option<Owed>) -> int {
    match last {
        Some(what) => turn(what),
        None => -1,
    }
}

/// Whether a thing is the next one owed after `last`: the first one due behind it, or none
/// where nothing behind it is due.
pub open spec fn is_next(last: Option<Owed>, e: Ended, next: Option<Owed>) -> bool {
    match next {
        Some(what) => is_due(what, e) && turn_after(last) < turn(what) && forall|x: Owed|
            turn_after(last) < #[trigger] turn(x) < turn(what) ==> !is_due(x, e),
        None => forall|x: Owed| turn_after(last) < #[trigger] turn(x) ==> !is_due(x, e),
    }
}

/// The next thing that an exit owes after `last`, by what is known of it now: whether
/// another session is live is looked at anew each time, since the end of a run can start
/// one.
pub fn exit_owes(last: Option<Owed>, e: Ended) -> (r: Option<Owed>)
    ensures
        is_next(last, e, r),
{
    let order: [Owed; 10] = [
        Owed::DeleteTranscript,
        Owed::ReportAgent,
        Owed::Teardown,
        Owed::WarnNothingPosted,
        Owed::ReleaseMain,
        Owed::PublishEnd,
        Owed::StopProcesses,
        Owed::ParkMain,
        Owed::Reconcile,
        Owed::Notify,
    ];
    let mut i: usize = match last {
        None => 0,
        Some(Owed::DeleteTranscript) => 1,
        Some(Owed::ReportAgent) => 2,
        Some(Owed::Teardown) => 3,
        Some(Owed::WarnNothingPosted) => 4,
        Some(Owed::ReleaseMain) => 5,
        Some(Owed::PublishEnd) => 6,
        Some(Owed::StopProcesses) => 7,
        Some(Owed::ParkMain) => 8,
        Some(Owed::Reconcile) => 9,
        Some(Owed::Notify) => 10,
    };
    while i < 10
        invariant
            i <= 10,
            turn_after(last) < i,
            forall|k: int| 0 <= k < 10 ==> turn(#[trigger] order@[k]) == k,
            forall|x: Owed| turn_after(last) < #[trigger] turn(x) < i ==> !is_due(x, e),
        decreases 10 - i,
    {
        let what: Owed = order[i];
        if due(what, e) {
            return Some(what);
        }
        proof {
            assert forall|x: Owed| turn_after(last) < #[trigger] turn(x) < i + 1 implies !is_due(
                x,
                e,
            ) by {
                if turn(x) == i {
                    assert(turn(what) == i);
                    assert(x == what);
                }
            }
        }
        i += 1;
    }
    None
}

/// Whether the `i`th thing that an exit did was the next one owed.
pub open spec fn is_chosen(steps: Seq<(Owed, Ended)>, i: int) -> bool {
    is_next(
        if i == 0 {
            None
        } else {
            Some(steps[i - 1].0)
        },
        steps[i].1,
        Some(steps[i].0),
    )
}

/// What an exit did, in order, each thing with what was known when it was chosen, and what
/// was known when it was over.
pub open spec fn is_exit(steps: Seq<(Owed, Ended)>, over: Ended) -> bool {
    &&& forall|i: int| 0 <= i < steps.len() ==> #[trigger] is_chosen(steps, i)
    &&& is_next(
        if steps.len() == 0 {
            None
        } else {
            Some(steps.last().0)
        },
        over,
        None,
    )
}

/// An exit does what is due when its turn comes and nothing else, each thing once and in
/// its turn. So main is never torn down, nor parked under a session that is live then, and
/// the end of a run is published only after main's claim was given back.
pub proof fn an_exit_owes_what_is_due(steps: Seq<(Owed, Ended)>, over: Ended, i: int, j: int)
    requires
        is_exit(steps, over),
        0 <= i <= j < steps.len(),
    ensures
        is_due(steps[i].0, steps[i].1),
        i < j ==> turn(steps[i].0) < turn(steps[j].0),
    decreases j - i,
{
    assert(is_chosen(steps, j));
    if i < j {
        an_exit_owes_what_is_due(steps, over, i, j - 1);
    }
}

/// What is due all along is done, main's claim is given back in any case, and the page is
/// told.
pub proof fn what_an_exit_owes_is_done(steps: Seq<(Owed, Ended)>, over: Ended, x: Owed)
    requires
        is_exit(steps, over),
    ensures
        is_due(x, over) && (forall|k: int| 0 <= k < steps.len() ==> is_due(x, #[trigger] steps[k].1))
            ==> exists|k: int| 0 <= k < steps.len() && (#[trigger] steps[k]).0 == x,
        exists|k: int| 0 <= k < steps.len() && (#[trigger] steps[k]).0 == Owed::ReleaseMain,
        exists|k: int| 0 <= k < steps.len() && (#[trigger] steps[k]).0 == Owed::Notify,
{
    if is_due(x, over) && (forall|k: int|
        0 <= k < steps.len() ==> is_due(x, #[trigger] steps[k].1)) {
        lemma_not_passed_over(steps, over, x, 0);
    }
    lemma_not_passed_over(steps, over, Owed::ReleaseMain, 0);
    lemma_not_passed_over(steps, over, Owed::Notify, 0);
}

/// What is due all along, and whose turn had not come before the `k`th thing, is done from
/// there on.
proof fn lemma_not_passed_over(steps: Seq<(Owed, Ended)>, over: Ended, x: Owed, k: int)
    requires
        is_exit(steps, over),
        0 <= k <= steps.len(),
        k > 0 ==> turn(steps[k - 1].0) < turn(x),
        is_due(x, over),
        forall|m: int| 0 <= m < steps.len() ==> is_due(x, #[trigger] steps[m].1),
    ensures
        exists|m: int| 0 <= m < steps.len() && (#[trigger] steps[m]).0 == x,
    decreases steps.len() - k,
{
    if k < steps.len() {
        assert(is_chosen(steps, k));
        let here = steps[k];
        assert(is_due(x, here.1));
        if turn(here.0) < turn(x) {
            lemma_not_passed_over(steps, over, x, k + 1);
        } else {
            assert(turn(here.0) == turn(x));
            assert(here.0 == x);
        }
    } else {
        assert(turn(x) >= 0);
        assert(false);
    }
}

/// What an exit owes, by what it was settled with: a session that is forgotten leaves
/// neither its transcript nor, where worktrees are not kept for good, the worktree it opened
/// in, which is never main; a run that owed proposals and has none is warned of; a run's end
/// is published; the processes of a workspace stop with the last session in it, main goes
/// back to its base with the last one there, and the tree is measured wherever it was known.
pub proof fn an_exit_owes_by_what_was_settled(
    settled: Settled,
    keeps_days: u64,
    proposed: bool,
    still_live: bool,
)
    ensures
        ({
            let e = known_of_exit(settled, keeps_days, proposed, still_live);
            &&& is_due(Owed::DeleteTranscript, e) <==> settled.forget is Some
            &&& is_due(Owed::ReportAgent, e) <==> settled.forget is Some
            &&& is_due(Owed::Teardown, e) <==> settled.forget is Some && keeps_days > 0
                && settled.workspace is Some && settled.workspace->Some_0@ != "main"@
                && settled.workspace->Some_0@ != PENDING_WORKTREE@
            &&& is_due(Owed::WarnNothingPosted, e) <==> settled.posting_for is Some && !proposed
            &&& is_due(Owed::ReleaseMain, e)
            &&& is_due(Owed::PublishEnd, e) <==> settled.ended is Some
            &&& is_due(Owed::StopProcesses, e) <==> settled.workspace is Some && !still_live
            &&& is_due(Owed::ParkMain, e) <==> settled.workspace is Some
                && settled.workspace->Some_0@ == "main"@ && !still_live
            &&& is_due(Owed::Reconcile, e) <==> settled.workspace is Some
            &&& is_due(Owed::Notify, e)
        }),
{
}

/// An exit goes in its order: what a forgotten session leaves goes first, main's claim is
/// given back before the end of a run is published, since that can start another, the
/// processes stop before main is parked, and the tree is measured after everything that
/// changes it.
pub proof fn an_exit_goes_in_its_order()
    ensures
        turn(Owed::DeleteTranscript) < turn(Owed::Teardown),
        turn(Owed::Teardown) < turn(Owed::ReleaseMain),
        turn(Owed::ReleaseMain) < turn(Owed::PublishEnd),
        turn(Owed::PublishEnd) < turn(Owed::StopProcesses),
        turn(Owed::StopProcesses) < turn(Owed::ParkMain),
        turn(Owed::ParkMain) < turn(Owed::Reconcile),
        turn(Owed::Reconcile) < turn(Owed::Notify),
        turn(Owed::WarnNothingPosted) < turn(Owed::ReleaseMain),
        turn(Owed::ReportAgent) < turn(Owed::Teardown),
{
}

} // verus!
