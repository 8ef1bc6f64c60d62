//! Moving a branch, its worktree and its conversation between checkouts.
//!
//! The swap, the move out of main, and the one rule they share: a conversation travels
//! with its branch.

pub mod names;

use vstd::prelude::*;
use vstd::string::*;
use crate::api::{no_such_session, refuse, unknown_session, ApiError, Said};
use crate::config::WorkspaceNotes;
use crate::ids::{short, short_id};
use crate::model::{Moment, Session, SessionId, Workspace, MAIN};
use crate::sessions::{locate, same_ids, seat, seated};
use crate::spaces::{find_home, home};
use crate::spawn::Relocated;
use crate::text::{as_deref, cat2, cat4, cat5, opt_str, opt_text, same, same_opt};

pub use names::{branch_leaf, free_worktree_name};

verus! {

// ---------------------------------------------------------------------------
// Who travels
// ---------------------------------------------------------------------------

/// Whether a session in a workspace is a conversation about a branch, and no run.
pub open spec fn belongs(s: Session, workspace: Seq<char>, branch: Seq<char>) -> bool {
    s.workspace@ == workspace && s.pass is None && opt_text(s.branch) == Some(branch)
}

/// Whether a session is a live conversation that can be relocated.
pub open spec fn is_carrier(
    s: Session,
    workspace: Seq<char>,
    branch: Seq<char>,
    speaks: Seq<SessionId>,
) -> bool {
    belongs(s, workspace, branch) && s.state.live() && speaks.contains(s.id)
}

/// Whether a session is not running and moves as a record.
pub open spec fn is_record(s: Session, workspace: Seq<char>, branch: Seq<char>) -> bool {
    belongs(s, workspace, branch) && !s.state.live() && s.recovery is None
}

/// The newest of the conversations that can be relocated, the first in the list among
/// equally new ones.
pub open spec fn carrier(
    list: Seq<Session>,
    workspace: Seq<char>,
    branch: Seq<char>,
    speaks: Seq<SessionId>,
) -> Option<(SessionId, Moment)>
    decreases list.len(),
{
    if list.len() == 0 {
        None
    } else {
        let best = carrier(list.drop_last(), workspace, branch, speaks);
        let s = list.last();
        if is_carrier(s, workspace, branch, speaks) && (best is None || best->Some_0.1
            < s.created_at) {
            Some((s.id, s.created_at))
        } else {
            best
        }
    }
}

/// The conversations that are not running, in the list's order.
pub open spec fn records(list: Seq<Session>, workspace: Seq<char>, branch: Seq<char>) -> Seq<
    SessionId,
>
    decreases list.len(),
{
    if list.len() == 0 {
        Seq::empty()
    } else if is_record(list.last(), workspace, branch) {
        records(list.drop_last(), workspace, branch).push(list.last().id)
    } else {
        records(list.drop_last(), workspace, branch)
    }
}

fn has_id(ids: &Vec<SessionId>, id: SessionId) -> (r: bool)
    ensures
        r == ids@.contains(id),
{
    let mut i: usize = 0;
    while i < ids.len()
        invariant
            i <= ids@.len(),
            forall|k: int| 0 <= k < i ==> ids@[k] != id,
        decreases ids@.len() - i,
    {
        if ids[i] == id {
            return true;
        }
        i += 1;
    }
    false
}

/// Everything in a workspace that belongs to `branch`: the one live conversation to
/// relocate, and every other session recorded there on the same branch. `speaks` names
/// the sessions with a conversation on disk.
pub fn to_carry(
    list: &Vec<Session>,
    workspace: &str,
    branch: &str,
    speaks: &Vec<SessionId>,
) -> (r: (Option<SessionId>, Vec<SessionId>))
    ensures
        r.0 == match carrier(list@, workspace@, branch@, speaks@) {
            Some((id, _)) => Some(id),
            None => None,
        },
        r.1@ == records(list@, workspace@, branch@),
{
    let mut best: Option<(SessionId, Moment)> = None;
    let mut ids: Vec<SessionId> = Vec::new();
    let mut i: usize = 0;
    while i < list.len()
        invariant
            i <= list@.len(),
            best == carrier(list@.take(i as int), workspace@, branch@, speaks@),
            ids@ == records(list@.take(i as int), workspace@, branch@),
        decreases list@.len() - i,
    {
        proof {
            assert(list@.take(i + 1).drop_last() =~= list@.take(i as int));
            assert(list@.take(i + 1).last() == list@[i as int]);
        }
        let s: &Session = &list[i];
        if same(s.workspace.as_str(), workspace) && s.pass.is_none() && same_opt(
            as_deref(&s.branch),
            Some(branch),
        ) {
            if s.state.is_live() {
                if has_id(speaks, s.id) {
                    let newer: bool = match best {
                        None => true,
                        Some((_, at)) => at < s.created_at,
                    };
                    if newer {
                        best = Some((s.id, s.created_at));
                    }
                }
            } else if s.recovery.is_none() {
                ids.push(s.id);
            }
        }
        i += 1;
    }
    proof {
        assert(list@.take(i as int) =~= list@);
    }
    (
        match best {
            Some((id, _)) => Some(id),
            None => None,
        },
        ids,
    )
}

/// Whoever travels was in that workspace on that branch and is no run: selection is by
/// branch, and a session that names none travels nowhere.
pub proof fn only_the_branchs_own_conversations_travel(
    list: Seq<Session>,
    workspace: Seq<char>,
    branch: Seq<char>,
    speaks: Seq<SessionId>,
)
    ensures
        carrier(list, workspace, branch, speaks) matches Some((id, at)) ==> exists|i: int|
            0 <= i < list.len() && (#[trigger] list[i]).id == id && list[i].created_at == at
                && is_carrier(list[i], workspace, branch, speaks),
        forall|k: int|
            0 <= k < records(list, workspace, branch).len() ==> exists|i: int|
                0 <= i < list.len() && (#[trigger] list[i]).id == #[trigger] records(
                    list,
                    workspace,
                    branch,
                )[k] && is_record(list[i], workspace, branch),
    decreases list.len(),
{
    if list.len() > 0 {
        let front = list.drop_last();
        only_the_branchs_own_conversations_travel(front, workspace, branch, speaks);
        if let Some((id, at)) = carrier(list, workspace, branch, speaks) {
            if carrier(front, workspace, branch, speaks) == Some((id, at)) {
                let i = choose|i: int|
                    0 <= i < front.len() && (#[trigger] front[i]).id == id && front[i].created_at
                        == at && is_carrier(front[i], workspace, branch, speaks);
                assert(list[i] == front[i]);
            } else {
                assert(list[list.len() - 1].id == id);
            }
        }
        let all = records(list, workspace, branch);
        let some = records(front, workspace, branch);
        assert forall|k: int| 0 <= k < all.len() implies exists|i: int|
            0 <= i < list.len() && (#[trigger] list[i]).id == #[trigger] all[k] && is_record(
                list[i],
                workspace,
                branch,
            ) by {
            if k < some.len() {
                assert(all[k] == some[k]);
                let i = choose|i: int|
                    0 <= i < front.len() && (#[trigger] front[i]).id == some[k] && is_record(
                        front[i],
                        workspace,
                        branch,
                    );
                assert(list[i] == front[i]);
            } else {
                assert(list[list.len() - 1].id == all[k]);
            }
        }
    }
}

/// No conversation about the branch that is not running is left behind, and the one that
/// is relocated is the newest of those that could be.
pub proof fn nobody_on_the_branch_is_left_behind(
    list: Seq<Session>,
    workspace: Seq<char>,
    branch: Seq<char>,
    speaks: Seq<SessionId>,
    i: int,
)
    requires
        0 <= i < list.len(),
    ensures
        is_record(list[i], workspace, branch) ==> records(list, workspace, branch).contains(
            list[i].id,
        ),
        is_carrier(list[i], workspace, branch, speaks) ==> (carrier(
            list,
            workspace,
            branch,
            speaks,
        ) matches Some((_, at)) && at >= list[i].created_at),
    decreases list.len(),
{
    let front = list.drop_last();
    let all = records(list, workspace, branch);
    let some = records(front, workspace, branch);
    if i < front.len() {
        nobody_on_the_branch_is_left_behind(front, workspace, branch, speaks, i);
        assert(front[i] == list[i]);
        if is_record(list[i], workspace, branch) {
            let k = choose|k: int| 0 <= k < some.len() && some[k] == list[i].id;
            assert(all[k] == list[i].id);
        }
    } else if is_record(list[i], workspace, branch) {
        assert(all[some.len() as int] == list[i].id);
    }
}

/// A conversation that has not ended travels with its branch, whatever it is doing: where
/// one in the workspace is on the branch, is no run and has something on disk, one is
/// relocated, and that one is at least as new and stands under all of the same conditions.
pub proof fn a_live_conversation_travels_with_its_branch(
    list: Seq<Session>,
    workspace: Seq<char>,
    branch: Seq<char>,
    speaks: Seq<SessionId>,
    i: int,
)
    requires
        0 <= i < list.len(),
        list[i].workspace@ == workspace,
        list[i].pass is None,
        list[i].branch matches Some(b) && b@ == branch,
        !(list[i].state is Exited),
        !(list[i].state is Archived),
        speaks.contains(list[i].id),
    ensures
        carrier(list, workspace, branch, speaks) is Some,
        exists|j: int| #![trigger list[j]]
            0 <= j < list.len() && carrier(list, workspace, branch, speaks)->Some_0.0 == list[j].id
                && list[j].created_at >= list[i].created_at && list[j].workspace@ == workspace
                && list[j].pass is None && (list[j].branch matches Some(b) && b@ == branch) && !(
            list[j].state is Exited) && !(list[j].state is Archived) && speaks.contains(list[j].id),
{
    nobody_on_the_branch_is_left_behind(list, workspace, branch, speaks, i);
    only_the_branchs_own_conversations_travel(list, workspace, branch, speaks);
}

/// Nobody is relocated who is elsewhere, a run, on another branch or on none, over, or
/// without a conversation on disk.
pub proof fn nobody_else_is_relocated(
    list: Seq<Session>,
    workspace: Seq<char>,
    branch: Seq<char>,
    speaks: Seq<SessionId>,
)
    requires
        forall|i: int|
            0 <= i < list.len() ==> (#[trigger] list[i]).workspace@ != workspace || list[i].pass
                is Some || list[i].branch is None || list[i].branch->Some_0@ != branch
                || list[i].state is Exited || list[i].state is Archived || !speaks.contains(
                list[i].id,
            ),
    ensures
        carrier(list, workspace, branch, speaks) is None,
{
    only_the_branchs_own_conversations_travel(list, workspace, branch, speaks);
}

/// A session that is over moves as a record exactly where it was in the workspace on the
/// branch, was no run, and its worktree was not torn down; the records move in the order of
/// the list.
pub proof fn what_is_over_travels_as_a_record(
    list: Seq<Session>,
    s: Session,
    workspace: Seq<char>,
    branch: Seq<char>,
)
    ensures
        records(list.push(s), workspace, branch) == if s.workspace@ == workspace && s.pass is None
            && s.branch is Some && s.branch->Some_0@ == branch && (s.state is Exited || s.state
            is Archived) && s.recovery is None {
            records(list, workspace, branch).push(s.id)
        } else {
            records(list, workspace, branch)
        },
        records(Seq::empty(), workspace, branch).len() == 0,
{
    assert(list.push(s).drop_last() =~= list);
}

// ---------------------------------------------------------------------------
// What a moved conversation is told
// ---------------------------------------------------------------------------

/// What an agent is told when its conversation has been moved. `agent` is what the agent
/// goes by.
pub open spec fn moved_text(
    agent: Seq<char>,
    branch: Seq<char>,
    from: Seq<char>,
    to: Seq<char>,
    extra: Option<Seq<char>>,
) -> Seq<char> {
    "This conversation has been moved. The branch "@ + branch
        + " was carried into another checkout and this session followed it: your working directory is now "@
        + to + ", and until this move it was "@ + from
        + ". What travelled is that branch and its uncommitted work. If you had been editing on a *different* branch, those edits are still in the tree you came from — check before you assume either way, and say what you find rather than moving anything."@
        + " "@ + agent + "'s worktree isolation for this session has already been released, so do not call `ExitWorktree` or `EnterWorktree`, and do not re-run the move: git in this directory works now. Treat remembered absolute paths as stale and re-read anything you are about to change."@
        + match extra {
        Some(e) => " "@ + e,
        None => Seq::empty(),
    }
}

/// What an agent is told when its conversation has been moved: which branch, from where
/// to where, and what the project says of the kind of checkout it is in now.
pub fn arrival_notice(
    agent: &str,
    notes: &WorkspaceNotes,
    branch: &str,
    from: &str,
    to: &str,
    into_main: bool,
) -> (r: String)
    ensures
        r@ == moved_text(agent@, branch@, from@, to@, notes.note(into_main)),
{
    let mut note: String = cat5(
        "This conversation has been moved. The branch ",
        branch,
        " was carried into another checkout and this session followed it: your working directory is now ",
        to,
        ", and until this move it was ",
    );
    note.append(from);
    note.append(
        ". What travelled is that branch and its uncommitted work. If you had been editing on a *different* branch, those edits are still in the tree you came from — check before you assume either way, and say what you find rather than moving anything.",
    );
    note.append(" ");
    note.append(agent);
    note.append(
        "'s worktree isolation for this session has already been released, so do not call `ExitWorktree` or `EnterWorktree`, and do not re-run the move: git in this directory works now. Treat remembered absolute paths as stale and re-read anything you are about to change.",
    );
    match notes.for_main(into_main) {
        Some(extra) => {
            let more: String = cat2(" ", extra);
            note.append(more.as_str());
        },
        None => {
            proof {
                assert(note@ + Seq::<char>::empty() =~= note@);
            }
        },
    }
    note
}

/// A record moved to another checkout for the sake of a branch.
pub open spec fn is_carried(
    agent: Seq<char>,
    before: Session,
    dest: Seq<char>,
    dest_path: Seq<char>,
    branch: Seq<char>,
    refiled: Option<String>,
    note: Option<Seq<char>>,
    after: Session,
) -> bool {
    &&& after == (Session {
        workspace: after.workspace,
        cwd: after.cwd,
        branch: after.branch,
        arrival_notice: after.arrival_notice,
        transcript_path: if refiled is Some {
            refiled
        } else {
            before.transcript_path
        },
        ..before
    })
    &&& after.workspace@ == dest
    &&& after.cwd@ == dest_path
    &&& opt_text(after.branch) == Some(branch)
    &&& opt_text(after.arrival_notice) == Some(
        moved_text(agent, branch, before.cwd@, dest_path, note),
    )
}

/// Move a session that is not running: the record follows its branch, and it is told so
/// when it next runs. `refiled` is where its transcript went, if it moved.
pub fn carry_record(
    agent: &str,
    list: &mut Vec<Session>,
    id: SessionId,
    dest: &str,
    dest_path: &str,
    branch: &str,
    refiled: Option<String>,
    notes: &WorkspaceNotes,
)
    ensures
        same_ids(old(list)@, final(list)@),
        if seated(old(list)@, id) {
            let i = seat(old(list)@, id);
            final(list)@ == old(list)@.update(i, final(list)@[i]) && is_carried(
                agent@,
                old(list)@[i],
                dest@,
                dest_path@,
                branch@,
                refiled,
                notes.note(dest@ == MAIN@),
                final(list)@[i],
            )
        } else {
            final(list)@ == old(list)@
        },
{
    match locate(list, id) {
        Some(i) => {
            let into_main: bool = same(dest, MAIN);
            let notice: String = arrival_notice(
                agent,
                notes,
                branch,
                list[i].cwd.as_str(),
                dest_path,
                into_main,
            );
            proof {
                crate::sessions::lemma_seat_found(list@, id);
            }
            let s: &mut Session = &mut list[i];
            s.workspace = dest.to_owned();
            s.cwd = dest_path.to_owned();
            s.branch = Some(branch.to_owned());
            if refiled.is_some() {
                s.transcript_path = refiled;
            }
            s.arrival_notice = Some(notice);
        },
        None => {},
    }
}

/// A carried record belongs where it was carried to, on the branch it was carried for:
/// the next move finds it there and nowhere else. Carrying it back puts it where it
/// was, on the same branch.
pub proof fn a_carried_record_travels_again(
    agent: Seq<char>,
    s: Session,
    dest: Seq<char>,
    dest_path: Seq<char>,
    branch: Seq<char>,
    there: Session,
    back: Session,
    refiled: Option<String>,
    again: Option<String>,
    note: Option<Seq<char>>,
    other: Option<Seq<char>>,
)
    requires
        is_record(s, s.workspace@, branch),
        is_carried(agent, s, dest, dest_path, branch, refiled, note, there),
        is_carried(agent, there, s.workspace@, s.cwd@, branch, again, other, back),
    ensures
        is_record(there, dest, branch),
        s.workspace@ != dest ==> !is_record(there, s.workspace@, branch),
        is_record(back, s.workspace@, branch),
        back.cwd@ == s.cwd@,
        back.id == s.id && back.created_at == s.created_at && back.name == s.name,
{
}

// ---------------------------------------------------------------------------
// The swap
// ---------------------------------------------------------------------------

/// Why a swap does not start, if it does not: its lock is taken, the workspace is main
/// or unknown, or an agent is mid-turn in either tree.
pub open spec fn swap_refusal(
    workspace: Seq<char>,
    lock_free: bool,
    known: bool,
    busy_main: Option<Seq<char>>,
    busy_tree: Option<Seq<char>>,
) -> Option<Said> {
    if workspace == MAIN@ {
        Some(Said::Failed("main cannot be swapped with itself"@))
    } else if !lock_free {
        Some(
            Said::Failed(
                "a swap is already running; it moves whole checkouts and their conversations, so give it a moment and look at the rail before asking again"@,
            ),
        )
    } else if !known {
        Some(Said::Failed("unknown workspace "@ + workspace))
    } else if busy_main is Some {
        Some(Said::Failed(mid_turn_text("main"@, busy_main->Some_0)))
    } else if busy_tree is Some {
        Some(Said::Failed(mid_turn_text("this worktree"@, busy_tree->Some_0)))
    } else {
        None
    }
}

pub open spec fn mid_turn_text(label: Seq<char>, who: Seq<char>) -> Seq<char> {
    label + " has an agent mid-turn ("@ + who
        + "); the swap replaces every file under it, so let that turn finish first"@
}

fn mid_turn(label: &str, who: &str) -> (r: ApiError)
    ensures
        r@ == Said::Failed(mid_turn_text(label@, who@)),
{
    refuse(
        cat4(
            label,
            " has an agent mid-turn (",
            who,
            "); the swap replaces every file under it, so let that turn finish first",
        ),
    )
}

/// Whether a swap with main may start. An idle session is the normal place to swap
/// from, so only one that is mid-turn stops it.
pub fn swap_may_start(
    workspace: &str,
    lock_free: bool,
    known: bool,
    busy_main: Option<&str>,
    busy_tree: Option<&str>,
) -> (r: Result<(), ApiError>)
    ensures
        match swap_refusal(workspace@, lock_free, known, opt_str(busy_main), opt_str(busy_tree)) {
            None => r is Ok,
            Some(why) => r is Err && r->Err_0@ == why,
        },
{
    if same(workspace, MAIN) {
        return Err(refuse("main cannot be swapped with itself".to_owned()));
    }
    if !lock_free {
        return Err(
            refuse(
                "a swap is already running; it moves whole checkouts and their conversations, so give it a moment and look at the rail before asking again".to_owned(),
            ),
        );
    }
    if !known {
        return Err(refuse(cat2("unknown workspace ", workspace)));
    }
    match busy_main {
        Some(who) => {
            return Err(mid_turn("main", who));
        },
        None => {},
    }
    match busy_tree {
        Some(who) => {
            return Err(mid_turn("this worktree", who));
        },
        None => {},
    }
    Ok(())
}

pub open spec fn stopped_text(label: Seq<char>) -> Seq<char> {
    label + " has a rebase stopped part-way; finish or abort it first"@
}

/// Why the trees of a swap cannot switch, if they cannot.
pub open spec fn move_refusal(main_rebasing: bool, tree_rebasing: bool) -> Option<Said> {
    if main_rebasing {
        Some(Said::Failed(stopped_text("the main checkout"@)))
    } else if tree_rebasing {
        Some(Said::Failed(stopped_text("this worktree"@)))
    } else {
        None
    }
}

/// A tree whose rebase is stopped part-way is not switched, whichever of the two it is,
/// and no other is kept from it.
pub proof fn a_stopped_rebase_stops_a_swap(main_rebasing: bool, tree_rebasing: bool)
    ensures
        move_refusal(main_rebasing, tree_rebasing) is None <==> !main_rebasing && !tree_rebasing,
{
}

/// Whether both trees can switch: a tree mid-rebase cannot.
pub fn swap_may_move(main_rebasing: bool, tree_rebasing: bool) -> (r: Result<(), ApiError>)
    ensures
        match move_refusal(main_rebasing, tree_rebasing) {
            Some(why) => r is Err && r->Err_0@ == why,
            None => r is Ok,
        },
        r is Ok <==> !main_rebasing && !tree_rebasing,
{
    if main_rebasing {
        Err(
            refuse(
                cat2("the main checkout", " has a rebase stopped part-way; finish or abort it first"),
            ),
        )
    } else if tree_rebasing {
        Err(
            refuse(
                cat2("this worktree", " has a rebase stopped part-way; finish or abort it first"),
            ),
        )
    } else {
        Ok(())
    }
}

/// A swap starts wherever it can: with a worktree that is known, while no other move is
/// under way, and with no agent mid-turn in either tree. Nothing else stops it, and each
/// of these does.
pub proof fn a_swap_starts_unless_something_is_in_the_way(
    workspace: Seq<char>,
    lock_free: bool,
    known: bool,
    busy_main: Option<Seq<char>>,
    busy_tree: Option<Seq<char>>,
)
    ensures
        workspace != "main"@ && lock_free && known && busy_main is None && busy_tree is None
            <==> swap_refusal(workspace, lock_free, known, busy_main, busy_tree) is None,
        !(swap_refusal(workspace, lock_free, known, busy_main, busy_tree) matches Some(
            Said::Busy(_),
        )),
{
}

/// The steps of a swap up to the exchange, and after it.
#[derive(Debug, Clone, Copy, PartialEq, Eq, Structural)]
pub enum SwapStage {
    /// See that no other move is under way and no agent is mid-turn.
    Check,
    /// Read what both checkouts are on.
    ReadBranches,
    /// Decide who travels, before anything moves.
    PickTravellers,
    /// See that neither checkout is mid-rebase.
    CheckRebases,
    /// List what will not travel.
    ListUntracked,
    /// Exchange the branches.
    Exchange,
    /// Let the conversations follow, which can fail each on its own.
    Follow,
    Report,
}

/// What follows a stage of a swap: a failure ends it, but for those of the conversations
/// that follow.
pub open spec fn swap_after(last: Option<SwapStage>, ok: bool) -> Option<SwapStage> {
    match last {
        None => Some(SwapStage::Check),
        Some(SwapStage::Follow) => Some(SwapStage::Report),
        Some(SwapStage::Report) => None,
        Some(stage) => if !ok {
            None
        } else {
            match stage {
                SwapStage::Check => Some(SwapStage::ReadBranches),
                SwapStage::ReadBranches => Some(SwapStage::PickTravellers),
                SwapStage::PickTravellers => Some(SwapStage::CheckRebases),
                SwapStage::CheckRebases => Some(SwapStage::ListUntracked),
                SwapStage::ListUntracked => Some(SwapStage::Exchange),
                _ => Some(SwapStage::Follow),
            }
        },
    }
}

/// The next stage of a swap, after `last` went well or did not.
pub fn swap_with_main_inner(last: Option<SwapStage>, ok: bool) -> (r: Option<SwapStage>)
    ensures
        r == swap_after(last, ok),
{
    match last {
        None => Some(SwapStage::Check),
        Some(SwapStage::Follow) => Some(SwapStage::Report),
        Some(SwapStage::Report) => None,
        Some(stage) => if !ok {
            None
        } else {
            match stage {
                SwapStage::Check => Some(SwapStage::ReadBranches),
                SwapStage::ReadBranches => Some(SwapStage::PickTravellers),
                SwapStage::PickTravellers => Some(SwapStage::CheckRebases),
                SwapStage::CheckRebases => Some(SwapStage::ListUntracked),
                SwapStage::ListUntracked => Some(SwapStage::Exchange),
                _ => Some(SwapStage::Follow),
            }
        },
    }
}

/// A swap that went this far, each stage with its outcome.
pub open spec fn is_swap(stages: Seq<(SwapStage, bool)>) -> bool {
    forall|i: int|
        0 <= i < stages.len() ==> Some((#[trigger] stages[i]).0) == swap_after(
            if i == 0 {
                None
            } else {
                Some(stages[i - 1].0)
            },
            i > 0 && stages[i - 1].1,
        )
}

/// Nothing is exchanged unless every check went well, and who travels is decided before
/// it is.
pub proof fn a_refused_swap_moves_nothing(stages: Seq<(SwapStage, bool)>, i: int)
    requires
        is_swap(stages),
        0 <= i < stages.len(),
        stages[i].0 == SwapStage::Exchange,
    ensures
        i == 5,
        forall|j: int| 0 <= j < 5 ==> (#[trigger] stages[j]).1,
        stages[0].0 == SwapStage::Check,
        stages[2].0 == SwapStage::PickTravellers,
        stages[3].0 == SwapStage::CheckRebases,
{
    assert(stages[i - 1] == (SwapStage::ListUntracked, true));
    assert(stages[i - 2] == (SwapStage::CheckRebases, true));
    assert(stages[i - 3] == (SwapStage::PickTravellers, true));
    assert(stages[i - 4] == (SwapStage::ReadBranches, true));
    assert(stages[i - 5] == (SwapStage::Check, true));
}

/// A swap that nothing stops goes through, and one in which a conversation could not follow
/// is still reported: no failure behind the exchange ends it.
pub proof fn a_swap_goes_through(stages: Seq<(SwapStage, bool)>)
    requires
        is_swap(stages),
        stages.len() > 0,
        swap_after(Some(stages.last().0), stages.last().1) is None,
        forall|i: int|
            0 <= i < stages.len() && (#[trigger] stages[i]).0 != SwapStage::Follow && stages[i].0
                != SwapStage::Report ==> stages[i].1,
    ensures
        stages.len() == 8,
        stages[5].0 == SwapStage::Exchange,
        stages[6].0 == SwapStage::Follow,
        stages[7].0 == SwapStage::Report,
{
    assert(stages[0].0 == SwapStage::Check);
    assert(stages.len() > 1);
    assert(stages[1].0 == SwapStage::ReadBranches);
    assert(stages.len() > 2);
    assert(stages[2].0 == SwapStage::PickTravellers);
    assert(stages.len() > 3);
    assert(stages[3].0 == SwapStage::CheckRebases);
    assert(stages.len() > 4);
    assert(stages[4].0 == SwapStage::ListUntracked);
    assert(stages.len() > 5);
    assert(stages[5].0 == SwapStage::Exchange);
    assert(stages.len() > 6);
    assert(stages[6].0 == SwapStage::Follow);
    assert(stages.len() > 7);
    assert(stages[7].0 == SwapStage::Report);
    if stages.len() > 8 {
        assert(Some(stages[8].0) == swap_after(Some(stages[7].0), stages[7].1));
    }
}

/// One of the two checkouts of a swap.
#[derive(Debug, Clone, Copy, PartialEq, Eq, Structural)]
pub enum Side {
    Main,
    Tree,
}

/// What a swap does once the branches have been exchanged.
#[derive(Debug, Clone, Copy, PartialEq, Eq, Structural)]
pub enum SwapStep {
    /// The checkout gave the branch away that the other one holds now.
    Forget(Side),
    /// Measure the checkout again.
    Reconcile(Side),
    /// Move a live conversation into the checkout.
    Relocate(SessionId, Side),
    /// Move a record into the checkout.
    Carry(SessionId, Side),
    /// Tell the conversation that was relocated into the checkout where it is.
    Notify(Side),
}

pub open spec fn relocation(who: Option<SessionId>, to: Side) -> Seq<SwapStep> {
    match who {
        Some(id) => seq![SwapStep::Relocate(id, to)],
        None => Seq::empty(),
    }
}

pub open spec fn carries(ids: Seq<SessionId>, to: Side) -> Seq<SwapStep> {
    ids.map_values(|id: SessionId| SwapStep::Carry(id, to))
}

/// What a swap does once the branches have been exchanged, in order: main's own
/// conversation leaves before another can arrive.
pub open spec fn swap_steps(
    outgoing: Option<SessionId>,
    incoming: Option<SessionId>,
    outgoing_records: Seq<SessionId>,
    incoming_records: Seq<SessionId>,
) -> Seq<SwapStep> {
    seq![
        SwapStep::Forget(Side::Tree),
        SwapStep::Forget(Side::Main),
        SwapStep::Reconcile(Side::Main),
        SwapStep::Reconcile(Side::Tree),
    ] + relocation(outgoing, Side::Tree) + relocation(incoming, Side::Main) + carries(
        outgoing_records,
        Side::Tree,
    ) + carries(incoming_records, Side::Main) + seq![
        SwapStep::Notify(Side::Tree),
        SwapStep::Notify(Side::Main),
    ]
}

fn push_carries(out: &mut Vec<SwapStep>, ids: &Vec<SessionId>, to: Side)
    ensures
        final(out)@ == old(out)@ + carries(ids@, to),
{
    let ghost before = out@;
    let mut i: usize = 0;
    proof {
        assert(before =~= before + carries(ids@, to).take(0));
    }
    while i < ids.len()
        invariant
            i <= ids@.len(),
            out@ == before + carries(ids@, to).take(i as int),
        decreases ids@.len() - i,
    {
        out.push(SwapStep::Carry(ids[i], to));
        proof {
            let c = carries(ids@, to);
            assert(before + c.take(i + 1) =~= (before + c.take(i as int)).push(c[i as int]));
        }
        i += 1;
    }
    proof {
        assert(carries(ids@, to).take(i as int) =~= carries(ids@, to));
    }
}

/// What a swap does once the branches have been exchanged. Who travels was decided
/// before anything moved.
pub fn swap_with_main(
    outgoing: Option<SessionId>,
    incoming: Option<SessionId>,
    outgoing_records: &Vec<SessionId>,
    incoming_records: &Vec<SessionId>,
) -> (r: Vec<SwapStep>)
    ensures
        r@ == swap_steps(outgoing, incoming, outgoing_records@, incoming_records@),
{
    let mut out: Vec<SwapStep> = Vec::new();
    out.push(SwapStep::Forget(Side::Tree));
    out.push(SwapStep::Forget(Side::Main));
    out.push(SwapStep::Reconcile(Side::Main));
    out.push(SwapStep::Reconcile(Side::Tree));
    let ghost s0 = out@;
    match outgoing {
        Some(id) => {
            out.push(SwapStep::Relocate(id, Side::Tree));
        },
        None => {},
    }
    proof {
        assert(out@ =~= s0 + relocation(outgoing, Side::Tree));
    }
    let ghost s1 = out@;
    match incoming {
        Some(id) => {
            out.push(SwapStep::Relocate(id, Side::Main));
        },
        None => {},
    }
    proof {
        assert(out@ =~= s1 + relocation(incoming, Side::Main));
    }
    push_carries(&mut out, outgoing_records, Side::Tree);
    push_carries(&mut out, incoming_records, Side::Main);
    let ghost s2 = out@;
    out.push(SwapStep::Notify(Side::Tree));
    out.push(SwapStep::Notify(Side::Main));
    proof {
        assert(s0 =~= seq![
            SwapStep::Forget(Side::Tree),
            SwapStep::Forget(Side::Main),
            SwapStep::Reconcile(Side::Main),
            SwapStep::Reconcile(Side::Tree),
        ]);
        assert(out@ =~= s2 + seq![SwapStep::Notify(Side::Tree), SwapStep::Notify(Side::Main)]);
    }
    out
}

/// Nobody is moved into main while main's own conversation is still there: in a swap
/// both ways, the one that leaves goes first.
pub proof fn main_is_vacated_first(
    out_id: SessionId,
    in_id: SessionId,
    outgoing_records: Seq<SessionId>,
    incoming_records: Seq<SessionId>,
)
    ensures
        ({
            let steps = swap_steps(
                Some(out_id),
                Some(in_id),
                outgoing_records,
                incoming_records,
            );
            &&& steps[4] == SwapStep::Relocate(out_id, Side::Tree)
            &&& steps[5] == SwapStep::Relocate(in_id, Side::Main)
        }),
{
}

/// Everybody who travels arrives on the other side, and nobody else is moved: what left
/// main goes into the worktree, what left the worktree goes into main, and each of the two
/// forgets the branch it gave away before anybody is moved, is measured again, and tells
/// who arrived.
pub proof fn everybody_arrives_on_the_other_side(
    outgoing: Option<SessionId>,
    incoming: Option<SessionId>,
    outgoing_records: Seq<SessionId>,
    incoming_records: Seq<SessionId>,
    id: SessionId,
    side: Side,
)
    ensures
        ({
            let steps = swap_steps(outgoing, incoming, outgoing_records, incoming_records);
            &&& steps.contains(SwapStep::Relocate(id, Side::Tree)) <==> outgoing == Some(id)
            &&& steps.contains(SwapStep::Relocate(id, Side::Main)) <==> incoming == Some(id)
            &&& steps.contains(SwapStep::Carry(id, Side::Tree)) <==> outgoing_records.contains(id)
            &&& steps.contains(SwapStep::Carry(id, Side::Main)) <==> incoming_records.contains(id)
            &&& steps.contains(SwapStep::Reconcile(side))
            &&& steps.contains(SwapStep::Notify(side))
            &&& steps.take(2).contains(SwapStep::Forget(side))
        }),
{
    let steps = swap_steps(outgoing, incoming, outgoing_records, incoming_records);
    let head = seq![
        SwapStep::Forget(Side::Tree),
        SwapStep::Forget(Side::Main),
        SwapStep::Reconcile(Side::Main),
        SwapStep::Reconcile(Side::Tree),
    ];
    let a = relocation(outgoing, Side::Tree);
    let b = relocation(incoming, Side::Main);
    let c = carries(outgoing_records, Side::Tree);
    let d = carries(incoming_records, Side::Main);
    let tail = seq![SwapStep::Notify(Side::Tree), SwapStep::Notify(Side::Main)];
    let ha: int = head.len() as int;
    let hb: int = ha + a.len();
    let hc: int = hb + b.len();
    let hd: int = hc + c.len();
    let he: int = hd + d.len();
    assert(steps =~= head + a + b + c + d + tail);
    assert(steps[0] == SwapStep::Forget(Side::Tree) && steps[1] == SwapStep::Forget(Side::Main));
    assert(steps.take(2)[0] == steps[0] && steps.take(2)[1] == steps[1]);
    assert(steps[2] == SwapStep::Reconcile(Side::Main));
    assert(steps[3] == SwapStep::Reconcile(Side::Tree));
    assert(steps[he] == SwapStep::Notify(Side::Tree));
    assert(steps[he + 1] == SwapStep::Notify(Side::Main));
    if outgoing == Some(id) {
        assert(steps[ha] == a[0]);
    }
    if incoming == Some(id) {
        assert(steps[hb] == b[0]);
    }
    if outgoing_records.contains(id) {
        let k = choose|k: int| 0 <= k < outgoing_records.len() && outgoing_records[k] == id;
        assert(steps[hc + k] == c[k]);
    }
    if incoming_records.contains(id) {
        let k = choose|k: int| 0 <= k < incoming_records.len() && incoming_records[k] == id;
        assert(steps[hd + k] == d[k]);
    }
    assert forall|k: int| 0 <= k < steps.len() implies {
        &&& steps[k] == SwapStep::Relocate(id, Side::Tree) ==> outgoing == Some(id)
        &&& steps[k] == SwapStep::Relocate(id, Side::Main) ==> incoming == Some(id)
        &&& steps[k] == SwapStep::Carry(id, Side::Tree) ==> outgoing_records.contains(id)
        &&& steps[k] == SwapStep::Carry(id, Side::Main) ==> incoming_records.contains(id)
    } by {
        if hc <= k < hd {
            assert(steps[k] == c[k - hc]);
            assert(outgoing_records[k - hc] == outgoing_records[k - hc]);
        } else if hd <= k < he {
            assert(steps[k] == d[k - hd]);
            assert(incoming_records[k - hd] == incoming_records[k - hd]);
        }
    }
}

/// Whether the exchange is the one that was looked at: each checkout holds now what the
/// other held when who travels was decided.
pub fn swapped_as_read(main_was: &str, tree_was: &str, main_now: &str, tree_now: &str) -> (r: bool)
    ensures
        r == (main_now@ == tree_was@ && tree_now@ == main_was@),
{
    same(main_now, tree_was) && same(tree_now, main_was)
}

/// The session that a swap lands the pane on, if anybody arrived.
pub open spec fn landing(
    into_main: Option<Result<Relocated, ApiError>>,
    into_tree: Option<Result<Relocated, ApiError>>,
) -> Option<SessionId> {
    match into_main {
        Some(Ok(m)) => Some(m.id),
        _ => match into_tree {
            Some(Ok(m)) => Some(m.id),
            _ => None,
        },
    }
}

/// The pane lands on somebody who arrived wherever anybody did, and on nobody who did not:
/// on who arrived in main before who left it.
pub proof fn a_swap_lands_on_somebody_who_arrived(
    into_main: Option<Result<Relocated, ApiError>>,
    into_tree: Option<Result<Relocated, ApiError>>,
    there: Relocated,
)
    ensures
        into_main == Some(Ok::<Relocated, ApiError>(there)) ==> landing(into_main, into_tree)
            == Some(there.id),
        !(into_main matches Some(Ok(_))) && into_tree == Some(Ok::<Relocated, ApiError>(there))
            ==> landing(into_main, into_tree) == Some(there.id),
        !(into_main matches Some(Ok(_))) && !(into_tree matches Some(Ok(_))) ==> landing(
            into_main,
            into_tree,
        ) is None,
{
}

/// Where a swap lands the pane: on the session that arrived in main, else on the one
/// that left it.
pub fn swap_select(
    into_main: &Option<Result<Relocated, ApiError>>,
    into_tree: &Option<Result<Relocated, ApiError>>,
) -> (r: Option<SessionId>)
    ensures
        r == landing(*into_main, *into_tree),
{
    match into_main {
        Some(Ok(m)) => Some(m.id),
        _ => match into_tree {
            Some(Ok(m)) => Some(m.id),
            _ => None,
        },
    }
}

/// One direction of a carry, as it is reported: the session it ended up in, or why it
/// is in none.
pub struct CarryReport {
    pub session: Option<SessionId>,
    /// A fork, not the move that was promised.
    pub degraded: bool,
    pub error: Option<String>,
}

/// Whether this is what is reported of one direction of a carry.
pub open spec fn is_report(r: Option<Result<Relocated, ApiError>>, out: Option<CarryReport>) -> bool {
    match r {
        None => out is None,
        Some(Ok(m)) => out == Some(
            CarryReport { session: Some(m.id), degraded: m.degraded, error: None },
        ),
        Some(Err(e)) => out is Some && out->Some_0.session is None && !out->Some_0.degraded
            && opt_text(out->Some_0.error) == Some(e@.words()),
    }
}

/// A carry is reported wherever there was one: under whom the conversation arrived and whether
/// only a fork of it did, or why it did not.
pub proof fn a_carry_is_reported(r: Option<Result<Relocated, ApiError>>, out: Option<CarryReport>)
    requires
        is_report(r, out),
    ensures
        out is Some <==> r is Some,
        r matches Some(Ok(m)) ==> out->Some_0.session == Some(m.id) && out->Some_0.degraded
            == m.degraded && out->Some_0.error is None,
        r matches Some(Err(e)) ==> out->Some_0.session is None && !out->Some_0.degraded
            && out->Some_0.error is Some && (e@ matches Said::Busy(w)
            ==> out->Some_0.error->Some_0@ == w) && (e@ matches Said::Failed(w)
            ==> out->Some_0.error->Some_0@ == w) && (e@ matches Said::Missing(w)
            ==> out->Some_0.error->Some_0@ == w),
{
}

/// One direction of a carry, as it is reported. There is nothing to report where there
/// was nothing to move.
pub fn carry_report(r: &Option<Result<Relocated, ApiError>>) -> (out: Option<CarryReport>)
    ensures
        is_report(*r, out),
{
    match r {
        None => None,
        Some(Ok(m)) => Some(
            CarryReport { session: Some(m.id), degraded: m.degraded, error: None },
        ),
        Some(Err(e)) => Some(
            CarryReport { session: None, degraded: false, error: Some(e.message().to_owned()) },
        ),
    }
}

// ---------------------------------------------------------------------------
// Moving out of main
// ---------------------------------------------------------------------------

/// Why a session is not moved out of main, if it is not.
pub open spec fn leave_main_refusal(list: Seq<Session>, id: SessionId, lock_free: bool) -> Option<
    Said,
> {
    if !lock_free {
        Some(
            Said::Failed(
                "a swap is already running; it moves main's checkout, so give it a moment and look at the rail before asking again"@,
            ),
        )
    } else if !seated(list, id) {
        Some(unknown_session(id))
    } else if list[seat(list, id)].workspace@ != MAIN@ {
        Some(
            Said::Failed(short(id) + " is not in main, so there is nothing to move it out of"@),
        )
    } else if list[seat(list, id)].state.busy() {
        Some(
            Said::Failed(
                "that agent is mid-turn; the move replaces every file under it, so let the turn finish first"@,
            ),
        )
    } else {
        None
    }
}

/// Whether a session may be moved out of main, and whether it is live and so has a
/// process to move.
pub fn move_out_of_main(list: &Vec<Session>, id: SessionId, lock_free: bool) -> (r: Result<
    bool,
    ApiError,
>)
    ensures
        match leave_main_refusal(list@, id, lock_free) {
            Some(why) => r is Err && r->Err_0@ == why,
            None => r == Ok::<bool, ApiError>(list@[seat(list@, id)].state.live()),
        },
{
    if !lock_free {
        return Err(
            refuse(
                "a swap is already running; it moves main's checkout, so give it a moment and look at the rail before asking again".to_owned(),
            ),
        );
    }
    let i: usize = match locate(list, id) {
        Some(i) => i,
        None => {
            return Err(no_such_session(id));
        },
    };
    if !same(list[i].workspace.as_str(), MAIN) {
        let eight: String = short_id(&id);
        return Err(
            refuse(
                cat2(
                    eight.as_str(),
                    " is not in main, so there is nothing to move it out of",
                ),
            ),
        );
    }
    if list[i].state.is_busy() {
        return Err(
            refuse(
                "that agent is mid-turn; the move replaces every file under it, so let the turn finish first".to_owned(),
            ),
        );
    }
    Ok(list[i].state.is_live())
}

/// A session leaves main wherever it can: where it is in main and not mid-turn, and no
/// other move is under way. Whether it is live does not matter.
pub proof fn an_idle_session_may_leave_main(
    list: Seq<Session>,
    id: SessionId,
    lock_free: bool,
    i: int,
)
    requires
        0 <= i < list.len(),
        list[i].id == id,
        forall|k: int| 0 <= k < i ==> (#[trigger] list[k]).id != id,
    ensures
        leave_main_refusal(list, id, lock_free) is None <==> lock_free && list[i].workspace@
            == "main"@ && !(list[i].state is Working) && !(list[i].state is Starting),
{
    crate::sessions::lemma_seat(list, id, i);
}

/// The steps of a move out of main up to the move itself, and after it.
#[derive(Debug, Clone, Copy, PartialEq, Eq, Structural)]
pub enum LeaveStage {
    /// See that no other move is under way and the session is an idle one in main.
    Check,
    /// Read main's branch and its base.
    ReadBranches,
    /// Choose the tree's name, and see that it is one.
    ChooseName,
    /// See that there is a base to put main back on.
    FindBase,
    /// List what will not travel.
    ListUntracked,
    /// Move the branch and its work into the new tree.
    MoveBranch,
    /// Let the conversations follow.
    Follow,
    Report,
}

/// What follows a stage of a move out of main.
pub open spec fn leave_after(last: Option<LeaveStage>, ok: bool) -> Option<LeaveStage> {
    match last {
        None => Some(LeaveStage::Check),
        Some(LeaveStage::Follow) => Some(LeaveStage::Report),
        Some(LeaveStage::Report) => None,
        Some(stage) => if !ok {
            None
        } else {
            match stage {
                LeaveStage::Check => Some(LeaveStage::ReadBranches),
                LeaveStage::ReadBranches => Some(LeaveStage::ChooseName),
                LeaveStage::ChooseName => Some(LeaveStage::FindBase),
                LeaveStage::FindBase => Some(LeaveStage::ListUntracked),
                LeaveStage::ListUntracked => Some(LeaveStage::MoveBranch),
                _ => Some(LeaveStage::Follow),
            }
        },
    }
}

/// The next stage of a move out of main, after `last` went well or did not.
pub fn leave_stage(last: Option<LeaveStage>, ok: bool) -> (r: Option<LeaveStage>)
    ensures
        r == leave_after(last, ok),
{
    match last {
        None => Some(LeaveStage::Check),
        Some(LeaveStage::Follow) => Some(LeaveStage::Report),
        Some(LeaveStage::Report) => None,
        Some(stage) => if !ok {
            None
        } else {
            match stage {
                LeaveStage::Check => Some(LeaveStage::ReadBranches),
                LeaveStage::ReadBranches => Some(LeaveStage::ChooseName),
                LeaveStage::ChooseName => Some(LeaveStage::FindBase),
                LeaveStage::FindBase => Some(LeaveStage::ListUntracked),
                LeaveStage::ListUntracked => Some(LeaveStage::MoveBranch),
                _ => Some(LeaveStage::Follow),
            }
        },
    }
}

/// A move out of main that went this far, each stage with its outcome.
pub open spec fn is_leave(stages: Seq<(LeaveStage, bool)>) -> bool {
    forall|i: int|
        0 <= i < stages.len() ==> Some((#[trigger] stages[i]).0) == leave_after(
            if i == 0 {
                None
            } else {
                Some(stages[i - 1].0)
            },
            i > 0 && stages[i - 1].1,
        )
}

/// Nothing leaves main unless every check went well.
pub proof fn a_refused_move_leaves_main_alone(stages: Seq<(LeaveStage, bool)>, i: int)
    requires
        is_leave(stages),
        0 <= i < stages.len(),
        stages[i].0 == LeaveStage::MoveBranch,
    ensures
        i == 5,
        forall|j: int| 0 <= j < 5 ==> (#[trigger] stages[j]).1,
        stages[0].0 == LeaveStage::Check,
        stages[3].0 == LeaveStage::FindBase,
{
    assert(stages[i - 1] == (LeaveStage::ListUntracked, true));
    assert(stages[i - 2] == (LeaveStage::FindBase, true));
    assert(stages[i - 3] == (LeaveStage::ChooseName, true));
    assert(stages[i - 4] == (LeaveStage::ReadBranches, true));
    assert(stages[i - 5] == (LeaveStage::Check, true));
}

/// A move out of main that nothing stops goes through, and is reported though a conversation
/// could not follow.
pub proof fn a_move_out_goes_through(stages: Seq<(LeaveStage, bool)>)
    requires
        is_leave(stages),
        stages.len() > 0,
        leave_after(Some(stages.last().0), stages.last().1) is None,
        forall|i: int|
            0 <= i < stages.len() && (#[trigger] stages[i]).0 != LeaveStage::Follow && stages[i].0
                != LeaveStage::Report ==> stages[i].1,
    ensures
        stages.len() == 8,
        stages[5].0 == LeaveStage::MoveBranch,
        stages[6].0 == LeaveStage::Follow,
        stages[7].0 == LeaveStage::Report,
{
    assert(stages[0].0 == LeaveStage::Check);
    assert(stages.len() > 1);
    assert(stages[1].0 == LeaveStage::ReadBranches);
    assert(stages.len() > 2);
    assert(stages[2].0 == LeaveStage::ChooseName);
    assert(stages.len() > 3);
    assert(stages[3].0 == LeaveStage::FindBase);
    assert(stages.len() > 4);
    assert(stages[4].0 == LeaveStage::ListUntracked);
    assert(stages.len() > 5);
    assert(stages[5].0 == LeaveStage::MoveBranch);
    assert(stages.len() > 6);
    assert(stages[6].0 == LeaveStage::Follow);
    assert(stages.len() > 7);
    assert(stages[7].0 == LeaveStage::Report);
    if stages.len() > 8 {
        assert(Some(stages[8].0) == leave_after(Some(stages[7].0), stages[7].1));
    }
}

/// What a move out of main does once the branch is in its new tree.
#[derive(Debug, Clone, Copy, PartialEq, Eq, Structural)]
pub enum LeaveStep {
    RunHooks,
    Register,
    /// Main gave the branch away.
    ForgetInMain,
    /// Who else in main is about the branch, read before anything is measured again.
    PickRecords,
    ReconcileMain,
    ReconcileTree,
    /// Move the live conversation.
    Relocate,
    /// Move its record.
    CarryRecord,
    /// Tell the relocated conversation where it is.
    Notify,
    /// Move the other records about the branch.
    CarryOthers,
}

pub open spec fn leave_steps(live: bool) -> Seq<LeaveStep> {
    seq![
        LeaveStep::RunHooks,
        LeaveStep::Register,
        LeaveStep::ForgetInMain,
        LeaveStep::PickRecords,
        LeaveStep::ReconcileMain,
        LeaveStep::ReconcileTree,
    ] + (if live {
        seq![LeaveStep::Relocate, LeaveStep::Notify]
    } else {
        seq![LeaveStep::CarryRecord]
    }) + seq![LeaveStep::CarryOthers]
}

pub fn leave_main_steps(live: bool) -> (r: Vec<LeaveStep>)
    ensures
        r@ == leave_steps(live),
{
    let mut out: Vec<LeaveStep> = Vec::new();
    out.push(LeaveStep::RunHooks);
    out.push(LeaveStep::Register);
    out.push(LeaveStep::ForgetInMain);
    out.push(LeaveStep::PickRecords);
    out.push(LeaveStep::ReconcileMain);
    out.push(LeaveStep::ReconcileTree);
    if live {
        out.push(LeaveStep::Relocate);
        out.push(LeaveStep::Notify);
    } else {
        out.push(LeaveStep::CarryRecord);
    }
    out.push(LeaveStep::CarryOthers);
    proof {
        assert(out@ =~= leave_steps(live));
    }
    out
}

/// Whether a step is taken, and another one after it.
pub open spec fn comes_before(steps: Seq<LeaveStep>, first: LeaveStep, second: LeaveStep) -> bool {
    exists|a: int, b: int|
        0 <= a < b < steps.len() && #[trigger] steps[a] == first && #[trigger] steps[b] == second
}

/// A conversation that leaves main is moved once, the way it has to be: relocated and told
/// where it is while it is live, and as a record otherwise. The tree is put through its hooks
/// and on record before anybody is moved into it, main has given the branch away by then, who
/// else is about the branch was read before the trees are measured again, and they follow.
pub proof fn who_leaves_main_is_moved_once(live: bool)
    ensures
        ({
            let steps = leave_steps(live);
            let moving = if live {
                LeaveStep::Relocate
            } else {
                LeaveStep::CarryRecord
            };
            &&& steps.contains(LeaveStep::Relocate) <==> live
            &&& steps.contains(LeaveStep::CarryRecord) <==> !live
            &&& comes_before(steps, LeaveStep::RunHooks, LeaveStep::Register)
            &&& comes_before(steps, LeaveStep::Register, moving)
            &&& comes_before(steps, LeaveStep::ForgetInMain, LeaveStep::ReconcileMain)
            &&& comes_before(steps, LeaveStep::PickRecords, LeaveStep::ReconcileMain)
            &&& comes_before(steps, LeaveStep::ReconcileMain, moving)
            &&& comes_before(steps, LeaveStep::ReconcileTree, moving)
            &&& comes_before(steps, moving, LeaveStep::CarryOthers)
            &&& live ==> comes_before(steps, LeaveStep::Relocate, LeaveStep::Notify)
            &&& steps.no_duplicates()
        }),
{
    let steps = leave_steps(live);
    assert(steps[0] == LeaveStep::RunHooks && steps[1] == LeaveStep::Register && steps[2]
        == LeaveStep::ForgetInMain && steps[3] == LeaveStep::PickRecords && steps[4]
        == LeaveStep::ReconcileMain && steps[5] == LeaveStep::ReconcileTree);
    if live {
        assert(steps[6] == LeaveStep::Relocate && steps[7] == LeaveStep::Notify && steps[8]
            == LeaveStep::CarryOthers);
    } else {
        assert(steps[6] == LeaveStep::CarryRecord && steps[7] == LeaveStep::CarryOthers);
    }
}

/// The ids in a list but for one.
pub open spec fn all_but(ids: Seq<SessionId>, id: SessionId) -> Seq<SessionId>
    decreases ids.len(),
{
    if ids.len() == 0 {
        ids
    } else if ids.last() == id {
        all_but(ids.drop_last(), id)
    } else {
        all_but(ids.drop_last(), id).push(ids.last())
    }
}

/// The other past conversations about a branch that leaves main.
pub fn siblings(records: &Vec<SessionId>, id: SessionId) -> (r: Vec<SessionId>)
    ensures
        r@ == all_but(records@, id),
{
    let mut out: Vec<SessionId> = Vec::new();
    let mut i: usize = 0;
    proof {
        assert(out@ =~= all_but(records@.take(0), id));
    }
    while i < records.len()
        invariant
            i <= records@.len(),
            out@ == all_but(records@.take(i as int), id),
        decreases records@.len() - i,
    {
        proof {
            assert(records@.take(i + 1).drop_last() =~= records@.take(i as int));
            assert(records@.take(i + 1).last() == records@[i as int]);
        }
        if records[i] != id {
            out.push(records[i]);
        }
        i += 1;
    }
    proof {
        assert(records@.take(i as int) =~= records@);
    }
    out
}

/// Everybody else who is about the branch follows, and the one that was moved already is
/// not moved again.
pub proof fn everybody_else_follows(ids: Seq<SessionId>, id: SessionId, other: SessionId)
    ensures
        all_but(ids, id).contains(other) <==> ids.contains(other) && other != id,
        !ids.contains(id) ==> all_but(ids, id) == ids,
    decreases ids.len(),
{
    if ids.len() > 0 {
        let front = ids.drop_last();
        everybody_else_follows(front, id, other);
        let n = ids.len() - 1;
        let all = all_but(ids, id);
        let some = all_but(front, id);
        if some.contains(other) {
            let k = choose|k: int| 0 <= k < some.len() && some[k] == other;
            assert(all[k] == other);
        }
        if front.contains(other) {
            let k = choose|k: int| 0 <= k < front.len() && front[k] == other;
            assert(ids[k] == other);
        }
        if ids.contains(other) {
            let k = choose|k: int| 0 <= k < ids.len() && ids[k] == other;
            if k < n {
                assert(front[k] == other);
            } else if other != id {
                assert(all[some.len() as int] == other);
            }
        }
        if all.contains(other) && ids.last() != id {
            let k = choose|k: int| 0 <= k < all.len() && all[k] == other;
            if k < some.len() {
                assert(some[k] == other);
            } else {
                assert(ids[n] == other);
            }
        }
        if !ids.contains(id) {
            assert(ids[n] != id);
            assert(!front.contains(id)) by {
                if front.contains(id) {
                    let k = choose|k: int| 0 <= k < front.len() && front[k] == id;
                    assert(ids[k] == id);
                }
            }
            assert(all =~= ids);
        }
    }
}

// ---------------------------------------------------------------------------
// Did everybody land?
// ---------------------------------------------------------------------------

/// The branch a workspace's tree holds, where the workspace is known and measured.
pub open spec fn holds(spaces: Seq<Workspace>, workspace: Seq<char>) -> Option<Seq<char>> {
    match home(spaces, workspace) {
        Some(w) => opt_text(w.tree.branch),
        None => None,
    }
}

/// Whether a live conversation is recorded on another branch than its tree holds.
pub open spec fn is_stranded(s: Session, spaces: Seq<Workspace>) -> bool {
    s.state.live() && s.pass is None && s.branch is Some && holds(spaces, s.workspace@) is Some
        && holds(spaces, s.workspace@) != opt_text(s.branch)
}

pub open spec fn stranded(list: Seq<Session>, spaces: Seq<Workspace>) -> Seq<SessionId>
    decreases list.len(),
{
    if list.len() == 0 {
        Seq::empty()
    } else if is_stranded(list.last(), spaces) {
        stranded(list.drop_last(), spaces).push(list.last().id)
    } else {
        stranded(list.drop_last(), spaces)
    }
}

fn branch_held<'a>(spaces: &'a Vec<Workspace>, workspace: &str) -> (r: Option<&'a str>)
    ensures
        opt_str(r) == holds(spaces@, workspace@),
{
    match find_home(spaces, workspace) {
        Some(w) => as_deref(&w.tree.branch),
        None => None,
    }
}

/// The live conversations that a move left in a tree without their branch. A run is
/// pinned to its branch, and an unknown branch on either side is no mismatch.
pub fn check_moves_landed(list: &Vec<Session>, spaces: &Vec<Workspace>) -> (r: Vec<SessionId>)
    ensures
        r@ == stranded(list@, spaces@),
{
    let mut out: Vec<SessionId> = Vec::new();
    let mut i: usize = 0;
    while i < list.len()
        invariant
            i <= list@.len(),
            out@ == stranded(list@.take(i as int), spaces@),
        decreases list@.len() - i,
    {
        proof {
            assert(list@.take(i + 1).drop_last() =~= list@.take(i as int));
            assert(list@.take(i + 1).last() == list@[i as int]);
        }
        let s: &Session = &list[i];
        if s.state.is_live() && s.pass.is_none() && s.branch.is_some() {
            let now: Option<&str> = branch_held(spaces, s.workspace.as_str());
            if now.is_some() && !same_opt(now, as_deref(&s.branch)) {
                out.push(s.id);
            }
        }
        i += 1;
    }
    proof {
        assert(list@.take(i as int) =~= list@);
    }
    out
}

/// A conversation that has not ended and is recorded on one branch while its tree holds
/// another is reported after every move, and nobody else is: not a run, not one that is
/// over, and not where either branch is unknown.
pub proof fn a_stranded_conversation_is_reported(
    list: Seq<Session>,
    s: Session,
    spaces: Seq<Workspace>,
)
    ensures
        stranded(Seq::empty(), spaces).len() == 0,
        stranded(list.push(s), spaces) == if !(s.state is Exited) && !(s.state is Archived)
            && s.pass is None && s.branch is Some && home(spaces, s.workspace@) is Some && home(
            spaces,
            s.workspace@,
        )->Some_0.tree.branch is Some && home(spaces, s.workspace@)->Some_0.tree.branch->Some_0@
            != s.branch->Some_0@ {
            stranded(list, spaces).push(s.id)
        } else {
            stranded(list, spaces)
        },
{
    assert(list.push(s).drop_last() =~= list);
}

/// A carried record is the same conversation in another place: it goes by what it went by,
/// is in the state it was in, and is told of the move.
pub proof fn a_carried_record_is_the_same_conversation(
    agent: Seq<char>,
    s: Session,
    dest: Seq<char>,
    dest_path: Seq<char>,
    branch: Seq<char>,
    refiled: Option<String>,
    note: Option<Seq<char>>,
    there: Session,
)
    requires
        is_carried(agent, s, dest, dest_path, branch, refiled, note, there),
    ensures
        there.workspace@ == dest,
        there.cwd@ == dest_path,
        there.branch is Some && there.branch->Some_0@ == branch,
        there.arrival_notice is Some,
        refiled is Some ==> there.transcript_path == refiled,
        refiled is None ==> there.transcript_path == s.transcript_path,
        there.id == s.id,
        there.state == s.state,
        there.pass == s.pass,
        there.name == s.name,
        there.title == s.title,
        there.recovery == s.recovery,
        there.had_a_turn == s.had_a_turn,
        there.interrupted == s.interrupted,
        there.created_at == s.created_at,
        there.spawned_by == s.spawned_by,
        there.forked_from == s.forked_from,
        there.archived_transcript == s.archived_transcript,
{
}

/// How far into a swap a stage stands.
pub open spec fn swap_turn(stage: SwapStage) -> int {
    match stage {
        SwapStage::Check => 0,
        SwapStage::ReadBranches => 1,
        SwapStage::PickTravellers => 2,
        SwapStage::CheckRebases => 3,
        SwapStage::ListUntracked => 4,
        SwapStage::Exchange => 5,
        SwapStage::Follow => 6,
        SwapStage::Report => 7,
    }
}

#[verifier::spinoff_prover]
#[verifier::rlimit(50)]
proof fn lemma_swap_turns(stages: Seq<(SwapStage, bool)>, i: int, j: int)
    requires
        is_swap(stages),
        0 <= i < j < stages.len(),
    ensures
        swap_turn(stages[i].0) < swap_turn(stages[j].0),
    decreases j - i,
{
    assert(Some(stages[j].0) == swap_after(Some(stages[j - 1].0), stages[j - 1].1));
    if i < j - 1 {
        lemma_swap_turns(stages, i, j - 1);
    }
}

/// Every swap starts with its check, does no stage twice, and stops at the first that
/// fails before anybody was moved; once branches have moved it goes on to its report.
pub proof fn a_swap_never_goes_back(stages: Seq<(SwapStage, bool)>, ok: bool, i: int, j: int)
    ensures
        swap_after(None, ok) == Some(SwapStage::Check),
        is_swap(stages) && 0 <= i < j < stages.len() ==> stages[i].0 != stages[j].0,
        is_swap(stages) && 0 <= i < stages.len() && !stages[i].1 && !(stages[i].0 is Follow)
            ==> i == stages.len() - 1,
        is_swap(stages) && stages.len() > 0 && swap_after(
            Some(stages.last().0),
            stages.last().1,
        ) is None ==> stages.last().0 is Report || !stages.last().1,
        swap_after(Some(SwapStage::Follow), ok) == Some(SwapStage::Report),
{
    if is_swap(stages) && 0 <= i < j < stages.len() {
        lemma_swap_turns(stages, i, j);
    }
    if is_swap(stages) && 0 <= i < stages.len() - 1 {
        assert(Some(stages[i + 1].0) == swap_after(Some(stages[i].0), stages[i].1));
    }
}

/// How far into a move out of main a stage stands.
pub open spec fn leave_turn(stage: LeaveStage) -> int {
    match stage {
        LeaveStage::Check => 0,
        LeaveStage::ReadBranches => 1,
        LeaveStage::ChooseName => 2,
        LeaveStage::FindBase => 3,
        LeaveStage::ListUntracked => 4,
        LeaveStage::MoveBranch => 5,
        LeaveStage::Follow => 6,
        LeaveStage::Report => 7,
    }
}

#[verifier::spinoff_prover]
#[verifier::rlimit(50)]
proof fn lemma_leave_turns(stages: Seq<(LeaveStage, bool)>, i: int, j: int)
    requires
        is_leave(stages),
        0 <= i < j < stages.len(),
    ensures
        leave_turn(stages[i].0) < leave_turn(stages[j].0),
    decreases j - i,
{
    assert(Some(stages[j].0) == leave_after(Some(stages[j - 1].0), stages[j - 1].1));
    if i < j - 1 {
        lemma_leave_turns(stages, i, j - 1);
    }
}

/// Every move out of main starts with its check, does no stage twice, and stops at the first that
/// fails before anybody was moved; once branches have moved it goes on to its report.
pub proof fn a_move_out_never_goes_back(stages: Seq<(LeaveStage, bool)>, ok: bool, i: int, j: int)
    ensures
        leave_after(None, ok) == Some(LeaveStage::Check),
        is_leave(stages) && 0 <= i < j < stages.len() ==> stages[i].0 != stages[j].0,
        is_leave(stages) && 0 <= i < stages.len() && !stages[i].1 && !(stages[i].0 is Follow)
            ==> i == stages.len() - 1,
        is_leave(stages) && stages.len() > 0 && leave_after(
            Some(stages.last().0),
            stages.last().1,
        ) is None ==> stages.last().0 is Report || !stages.last().1,
        leave_after(Some(LeaveStage::Follow), ok) == Some(LeaveStage::Report),
{
    if is_leave(stages) && 0 <= i < j < stages.len() {
        lemma_leave_turns(stages, i, j);
    }
    if is_leave(stages) && 0 <= i < stages.len() - 1 {
        assert(Some(stages[i + 1].0) == leave_after(Some(stages[i].0), stages[i].1));
    }
}

/// A session that is not there is missed; a swap and a move out that are refused are refused
/// for good.
pub proof fn a_swap_is_refused_by_kind(
    list: Seq<Session>,
    id: SessionId,
    workspace: Seq<char>,
    lock_free: bool,
    known: bool,
    busy_main: Option<Seq<char>>,
    busy_tree: Option<Seq<char>>,
    main_rebasing: bool,
    tree_rebasing: bool,
)
    ensures
        swap_refusal(workspace, lock_free, known, busy_main, busy_tree) matches Some(w)
            ==> w.status() == 400,
        move_refusal(main_rebasing, tree_rebasing) matches Some(w) ==> w.status() == 400,
        leave_main_refusal(list, id, lock_free) matches Some(w) ==> (w.status() == 404
            <==> lock_free && !seated(list, id)) && w.status() != 409,
        !seated(list, id) ==> leave_main_refusal(list, id, lock_free) is Some,
{
}

} // verus!
