//! Respawn sessions in place, so they run the agent installed now.
//!
//! Asking queues; one watcher restarts the queued sessions that are safe to interrupt,
//! one at a time.

use vstd::prelude::*;
use vstd::string::*;
use crate::api::talk::{has_terminal, live_terminal};
use crate::api::{no_such_session, refuse, unknown_session, ApiError, Said};
use crate::ids::{short, short_id};
use crate::model::{Session, SessionId, State, TurnReason};
use crate::sessions::{apart, lemma_seat_found, locate, same_ids, seat, seated};
use crate::text::cat3;

verus! {

/// What asking for a restart did.
#[derive(Debug, Clone, Copy, PartialEq, Eq, Structural)]
pub struct Queued {
    /// Sessions now waiting to be respawned.
    pub queued: usize,
    /// Of those, how many can go straight away.
    pub now: usize,
}

/// Which sessions a restart is for.
#[derive(Debug, Clone, Copy, PartialEq, Eq, Structural)]
pub enum Which {
    /// One session, asked for from its row.
    One(SessionId),
    /// Every live agent session.
    All,
    /// The ones an upgrade left behind.
    Stale,
}

/// Whether there is an agent here to restart: a live session with a live terminal.
pub open spec fn is_running(s: Session) -> bool {
    s.state.live() && has_terminal(s)
}

pub fn running(s: &Session) -> (r: bool)
    ensures
        r == is_running(*s),
{
    s.state.is_live() && live_terminal(s).is_some()
}

/// Whether a restart that was asked for is for this session.
pub open spec fn is_picked(s: Session, which: Which) -> bool {
    is_running(s) && match which {
        Which::One(id) => s.id == id,
        Which::All => true,
        Which::Stale => s.agent_stale,
    }
}

/// How many of a list's sessions a restart is for.
pub open spec fn picked(list: Seq<Session>, which: Which) -> nat
    decreases list.len(),
{
    if list.len() == 0 {
        0
    } else {
        picked(list.drop_last(), which) + if is_picked(list.last(), which) {
            1nat
        } else {
            0nat
        }
    }
}

/// How many of those can go straight away.
pub open spec fn picked_now(list: Seq<Session>, which: Which) -> nat
    decreases list.len(),
{
    if list.len() == 0 {
        0
    } else {
        picked_now(list.drop_last(), which) + if is_picked(list.last(), which)
            && list.last().state.restartable() {
            1nat
        } else {
            0nat
        }
    }
}

/// Why nothing is queued, if nothing is: a session asked for by id that is not there or
/// does not run.
pub open spec fn queue_refusal(list: Seq<Session>, which: Which) -> Option<Said> {
    match which {
        Which::One(id) => if !seated(list, id) {
            Some(unknown_session(id))
        } else if !is_running(list[seat(list, id)]) {
            Some(
                Said::Failed(
                    "session "@ + short(id)
                        + " is not running — resume it from the archive instead"@,
                ),
            )
        } else {
            None
        },
        _ => None,
    }
}

pub open spec fn flagged(s: Session, which: Which) -> Session {
    if is_picked(s, which) {
        Session { restart_queued: true, ..s }
    } else {
        s
    }
}

fn is_for(s: &Session, which: Which) -> (r: bool)
    ensures
        r == is_picked(*s, which),
{
    running(s) && match which {
        Which::One(id) => s.id == id,
        Which::All => true,
        Which::Stale => s.agent_stale,
    }
}

/// Flag sessions for a respawn, and say how many can go now.
pub fn queue(list: &mut Vec<Session>, which: Which) -> (r: Result<Queued, ApiError>)
    ensures
        same_ids(old(list)@, final(list)@),
        match queue_refusal(old(list)@, which) {
            Some(why) => r is Err && r->Err_0@ == why && final(list)@ == old(list)@,
            None => {
                &&& r is Ok
                &&& r->Ok_0.queued == picked(old(list)@, which)
                &&& r->Ok_0.now == picked_now(old(list)@, which)
                &&& final(list)@ == old(list)@.map_values(|s: Session| flagged(s, which))
            },
        },
{
    match which {
        Which::One(id) => match locate(list, id) {
            None => {
                return Err(no_such_session(id));
            },
            Some(i) => {
                if !running(&list[i]) {
                    let eight: String = short_id(&id);
                    return Err(
                        refuse(
                            cat3(
                                "session ",
                                eight.as_str(),
                                " is not running — resume it from the archive instead",
                            ),
                        ),
                    );
                }
            },
        },
        _ => {},
    }
    let mut queued: usize = 0;
    let mut now: usize = 0;
    let mut i: usize = 0;
    let n: usize = list.len();
    while i < n
        invariant
            n == old(list)@.len(),
            list@.len() == n,
            i <= n,
            queued == picked(old(list)@.take(i as int), which),
            now == picked_now(old(list)@.take(i as int), which),
            queued <= i,
            now <= queued,
            forall|k: int| 0 <= k < i ==> list@[k] == flagged(old(list)@[k], which),
            forall|k: int| i <= k < n ==> list@[k] == old(list)@[k],
        decreases n - i,
    {
        proof {
            let l = old(list)@;
            assert(l.take(i + 1).drop_last() =~= l.take(i as int));
            assert(l.take(i + 1).last() == l[i as int]);
        }
        if is_for(&list[i], which) {
            let s: &mut Session = &mut list[i];
            s.restart_queued = true;
            queued += 1;
            if s.state.safe_to_restart() {
                now += 1;
            }
        }
        i += 1;
    }
    proof {
        assert(old(list)@.take(i as int) =~= old(list)@);
        assert(list@ =~= old(list)@.map_values(|s: Session| flagged(s, which)));
    }
    Ok(Queued { queued, now })
}

/// A session that was taken back out of the queue.
pub open spec fn taken_out(s: Session) -> Session {
    Session { restart_queued: false, ..s }
}

/// A session that is taken out of the queue is not restarted, and is otherwise as it was; one
/// that was not in it is as it was.
pub proof fn taking_out_of_the_queue_only_does_that(s: Session)
    ensures
        !taken_out(s).restart_queued,
        (Session { restart_queued: s.restart_queued, ..taken_out(s) }) == s,
        !s.restart_queued ==> taken_out(s) == s,
        !is_due(taken_out(s)),
{
}

/// Take a session back out of the queue. Returns whether it was in it.
pub fn cancel(list: &mut Vec<Session>, id: SessionId) -> (r: Result<bool, ApiError>)
    ensures
        same_ids(old(list)@, final(list)@),
        if seated(old(list)@, id) {
            let i = seat(old(list)@, id);
            &&& r == Ok::<bool, ApiError>(old(list)@[i].restart_queued)
            &&& final(list)@ == old(list)@.update(i, taken_out(old(list)@[i]))
        } else {
            r is Err && r->Err_0@ == unknown_session(id) && final(list)@ == old(list)@
        },
{
    match locate(list, id) {
        None => Err(no_such_session(id)),
        Some(i) => {
            proof {
                lemma_seat_found(list@, id);
            }
            let was: bool = list[i].restart_queued;
            let s: &mut Session = &mut list[i];
            s.restart_queued = false;
            Ok(was)
        },
    }
}

/// Whether a session can be restarted now.
pub open spec fn is_due(s: Session) -> bool {
    s.restart_queued && is_running(s) && s.state.restartable()
}

/// The oldest session that can be restarted now, the first in the list among equally old
/// ones, as its place.
pub open spec fn due(list: Seq<Session>) -> Option<int>
    decreases list.len(),
{
    if list.len() == 0 {
        None
    } else {
        let front = due(list.drop_last());
        if is_due(list.last()) && (front is None || list.last().created_at
            < list[front->Some_0].created_at) {
            Some(list.len() - 1)
        } else {
            front
        }
    }
}

pub proof fn lemma_due(list: Seq<Session>)
    ensures
        due(list) matches Some(i) ==> 0 <= i < list.len() && is_due(list[i]) && forall|j: int|
            0 <= j < list.len() && is_due(#[trigger] list[j]) ==> list[i].created_at
                <= list[j].created_at,
        due(list) is None ==> forall|j: int| 0 <= j < list.len() ==> !is_due(#[trigger] list[j]),
    decreases list.len(),
{
    if list.len() > 0 {
        let front = list.drop_last();
        lemma_due(front);
        assert forall|j: int| 0 <= j < list.len() && is_due(#[trigger] list[j]) implies due(
            list,
        ) is Some && list[due(list)->Some_0].created_at <= list[j].created_at by {
            if j < front.len() {
                assert(front[j] == list[j]);
                assert(due(front) is Some);
            }
        }
    }
}

/// The oldest flagged session that is safe to interrupt, and where it lives.
pub fn next_due(list: &Vec<Session>) -> (r: Option<(SessionId, String)>)
    ensures
        match due(list@) {
            None => r is None,
            Some(i) => r == Some((list@[i].id, list@[i].workspace)),
        },
{
    let mut best: Option<usize> = None;
    let mut i: usize = 0;
    while i < list.len()
        invariant
            i <= list@.len(),
            due(list@.take(i as int)) == match best {
                Some(b) => Some(b as int),
                None => None,
            },
            best matches Some(b) ==> b < i,
        decreases list@.len() - i,
    {
        proof {
            assert(list@.take(i + 1).drop_last() =~= list@.take(i as int));
            assert(list@.take(i + 1).last() == list@[i as int]);
        }
        let s: &Session = &list[i];
        if s.restart_queued && running(s) && s.state.safe_to_restart() {
            let older: bool = match best {
                None => true,
                Some(b) => s.created_at < list[b].created_at,
            };
            if older {
                best = Some(i);
            }
        }
        i += 1;
    }
    proof {
        assert(list@.take(i as int) =~= list@);
    }
    match best {
        Some(b) => Some((list[b].id, list[b].workspace.clone())),
        None => None,
    }
}

/// Who is restarted on a look at the queue, and where, if anybody is.
pub open spec fn restarted_now(list: Seq<Session>, swap_free: bool) -> Option<
    (SessionId, String),
> {
    if swap_free && due(list) is Some {
        Some((list[due(list)->Some_0].id, list[due(list)->Some_0].workspace))
    } else {
        None
    }
}

/// Whoever is due is restarted in their own workspace on the next look that finds no swap
/// running; while one runs nobody is.
pub proof fn who_is_due_is_restarted_once_no_swap_runs(list: Seq<Session>)
    ensures
        restarted_now(list, false) is None,
        restarted_now(list, true) is Some <==> due(list) is Some,
        due(list) matches Some(i) ==> restarted_now(list, true)->Some_0.0 == list[i].id
            && restarted_now(list, true)->Some_0.1 == list[i].workspace,
{
}

/// What the watcher does on a look at the queue: restart one session, or wait. While a
/// swap runs nothing is restarted.
pub fn run_due(list: &Vec<Session>, swap_free: bool) -> (r: Option<(SessionId, String)>)
    ensures
        r == restarted_now(list@, swap_free),
{
    match next_due(list) {
        Some(x) => if swap_free {
            Some(x)
        } else {
            None
        },
        None => None,
    }
}

/// Nothing mid-turn or with a question on screen is ever restarted, and the oldest
/// goes first.
pub proof fn only_the_oldest_idle_session_restarts(list: Seq<Session>, j: int)
    requires
        due(list) is Some,
        0 <= j < list.len(),
        is_due(list[j]),
    ensures
        0 <= due(list)->Some_0 < list.len(),
        list[due(list)->Some_0].restart_queued,
        list[due(list)->Some_0].state.restartable(),
        !list[due(list)->Some_0].state.busy(),
        list[due(list)->Some_0].created_at <= list[j].created_at,
{
    lemma_due(list);
}

/// Cancelling takes a session back out: it is not due, whatever else is.
pub proof fn a_cancelled_session_is_not_due(list: Seq<Session>, id: SessionId)
    requires
        seated(list, id),
    ensures
        !is_due(
            list.update(
                seat(list, id),
                (Session { restart_queued: false, ..list[seat(list, id)] }),
            )[seat(list, id)],
        ),
{
    lemma_seat_found(list, id);
}

/// A restart asked for on one row is for that session alone: every other one is as it was,
/// and where no two share an id, exactly one is queued.
pub proof fn a_row_restarts_only_itself(list: Seq<Session>, id: SessionId, i: int)
    requires
        apart(list),
        queue_refusal(list, Which::One(id)) is None,
        0 <= i < list.len(),
    ensures
        picked(list, Which::One(id)) == 1,
        picked_now(list, Which::One(id)) <= 1,
        list[i].id != id ==> flagged(list[i], Which::One(id)) == list[i],
        list[i].id == id ==> flagged(list[i], Which::One(id)) == (Session {
            restart_queued: true,
            ..list[i]
        }),
{
    lemma_seat_found(list, id);
    lemma_picks_one(list, id);
}

proof fn lemma_picks_one(list: Seq<Session>, id: SessionId)
    requires
        apart(list),
    ensures
        picked(list, Which::One(id)) <= 1,
        picked_now(list, Which::One(id)) <= picked(list, Which::One(id)),
        forall|k: int|
            0 <= k < list.len() && (#[trigger] list[k]).id == id && is_running(list[k]) ==> picked(
                list,
                Which::One(id),
            ) == 1,
        (forall|k: int| 0 <= k < list.len() ==> (#[trigger] list[k]).id != id) ==> picked(
            list,
            Which::One(id),
        ) == 0,
    decreases list.len(),
{
    if list.len() > 0 {
        let front = list.drop_last();
        assert(apart(front)) by {
            assert forall|a: int, b: int| 0 <= a < b < front.len() implies front[a].id
                != front[b].id by {
                assert(list[a].id != list[b].id);
            }
        }
        lemma_picks_one(front, id);
        let n = list.len() - 1;
        if list.last().id == id {
            assert forall|k: int| 0 <= k < front.len() implies (#[trigger] front[k]).id != id by {
                assert(list[k].id != list[n].id);
            }
        }
        assert forall|k: int|
            0 <= k < list.len() && (#[trigger] list[k]).id == id && is_running(
                list[k],
            ) implies picked(list, Which::One(id)) == 1 by {
            if k < n {
                assert(front[k] == list[k]);
                assert(list[n].id != id);
            }
        }
        if forall|k: int| 0 <= k < list.len() ==> (#[trigger] list[k]).id != id {
            assert forall|k: int| 0 <= k < front.len() implies (#[trigger] front[k]).id != id by {
                assert(front[k] == list[k]);
            }
            assert(list[n].id != id);
        }
    }
}

/// Restarting everything queues each session that has not ended and whose terminal runs;
/// restarting what an upgrade left behind queues those of them that it left behind; and
/// nobody else is touched. What was queued stays so.
pub proof fn a_restart_is_for_what_runs(s: Session, which: Which)
    ensures
        !(s.state is Exited) && !(s.state is Archived) && s.pty is Some && s.pty->Some_0.alive
            ==> flagged(s, Which::All).restart_queued && (s.agent_stale ==> flagged(
            s,
            Which::Stale,
        ).restart_queued) && flagged(s, Which::One(s.id)).restart_queued,
        s.state is Exited || s.state is Archived || s.pty is None || !s.pty->Some_0.alive
            ==> flagged(s, which) == s,
        !s.agent_stale ==> flagged(s, Which::Stale) == s,
        s.restart_queued ==> flagged(s, which).restart_queued,
        flagged(s, which) == (Session {
            restart_queued: flagged(s, which).restart_queued,
            ..s
        }),
{
}

/// What is queued is counted one by one, and of those the ones at rest with no question on
/// screen can go now.
pub proof fn a_queue_counts_what_it_flags(list: Seq<Session>, s: Session, which: Which)
    requires
        !s.restart_queued,
    ensures
        picked(Seq::empty(), which) == 0,
        picked_now(Seq::empty(), which) == 0,
        picked(list.push(s), which) == picked(list, which) + if flagged(
            s,
            which,
        ).restart_queued {
            1nat
        } else {
            0
        },
        picked_now(list.push(s), which) == picked_now(list, which) + if flagged(
            s,
            which,
        ).restart_queued && !(s.state is Starting) && !(s.state is Working) && (s.state
            matches State::YourTurn { reason, .. } ==> reason != TurnReason::AskedAQuestion
            && reason != TurnReason::NeedsPermission) {
            1nat
        } else {
            0
        },
{
    assert(list.push(s).drop_last() =~= list);
}

/// A queued session whose terminal runs and that rests at its prompt, or on a red build or
/// an error, is restarted at the next look: somebody is, and nobody newer before it.
pub proof fn a_queued_session_at_rest_is_restarted(list: Seq<Session>, j: int)
    requires
        0 <= j < list.len(),
        list[j].restart_queued,
        list[j].pty is Some,
        list[j].pty->Some_0.alive,
        list[j].state is BuildFailing || list[j].state is Error || (list[j].state
            matches State::YourTurn { reason, .. } && reason != TurnReason::AskedAQuestion && reason
            != TurnReason::NeedsPermission),
    ensures
        due(list) matches Some(i) && 0 <= i < list.len() && list[i].created_at
            <= list[j].created_at && list[i].restart_queued && list[i].pty is Some
            && list[i].pty->Some_0.alive && (list[i].state is BuildFailing || list[i].state
            is Error || (list[i].state matches State::YourTurn { reason, .. } && reason
            != TurnReason::AskedAQuestion && reason != TurnReason::NeedsPermission)),
{
    lemma_due(list);
    assert(is_due(list[j]));
}

/// Nothing is restarted that was not asked for, that does not run, that is mid-turn or
/// starting, or that waits for an answer.
pub proof fn nothing_is_restarted_unasked(list: Seq<Session>)
    requires
        forall|j: int|
            0 <= j < list.len() ==> !(#[trigger] list[j]).restart_queued || list[j].pty is None
                || !list[j].pty->Some_0.alive || list[j].state is Starting || list[j].state
                is Working || list[j].state is Exited || list[j].state is Archived || (
            list[j].state matches State::YourTurn { reason, .. } && (reason
                == TurnReason::AskedAQuestion || reason == TurnReason::NeedsPermission)),
    ensures
        due(list) is None,
{
    lemma_due(list);
}

/// A restart of a session that is not there misses it, and one of a session that does not run
/// is refused for good; all of them can always be asked for.
pub proof fn a_restart_is_refused_by_kind(list: Seq<Session>, id: SessionId)
    ensures
        queue_refusal(list, Which::One(id)) matches Some(w) ==> (w.status() == 404 <==> !seated(
            list,
            id,
        )) && (w.status() == 400 <==> seated(list, id)),
        !seated(list, id) ==> queue_refusal(list, Which::One(id)) is Some,
        queue_refusal(list, Which::All) is None,
        queue_refusal(list, Which::Stale) is None,
{
}

/// Whoever asks for a restart of what does not run is told which session that is, and how to
/// have it back.
pub proof fn what_does_not_run_is_pointed_to_the_archive(list: Seq<Session>, id: SessionId)
    requires
        seated(list, id),
        !is_running(list[seat(list, id)]),
    ensures
        queue_refusal(list, Which::One(id)) matches Some(w) && w.words() == "session "@ + short(id)
            + " is not running — resume it from the archive instead"@,
{
}

} // verus!
