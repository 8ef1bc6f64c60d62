//! Moving a conversation to another workspace, and opening one in a new worktree.

use vstd::prelude::*;
use vstd::string::*;
use crate::api::{refuse, ApiError, Said};
use crate::ids::{short, short_id};
use crate::model::{Moment, Pass, Pty, Session, SessionId, MAIN};
use crate::sessions::{locate, same_ids, seat, seated};
use crate::spawn::record::{
    choose_worktree_name, first_free, lemma_first_free, takes_a_spare, worktree_base,
    worktree_name, Candidate,
};
use crate::spawn::{
    name_refusal, validate_worktree_name, worktree_branch, worktree_branch_of, Relocated,
};
use crate::text::{as_deref, cat2, cat3, cat4, copied, listed, opt_str, opt_text, same, texts};

verus! {

// ---------------------------------------------------------------------------
// Relocating
// ---------------------------------------------------------------------------

/// What a conversation was before it moved: a resume rebuilds its record, so this is
/// read first.
pub struct Leaving {
    pub cwd: String,
    pub workspace: String,
    pub pty: Option<Pty>,
    pub title: Option<String>,
    pub name: Option<String>,
    pub created_at: Moment,
    pub pass: Option<Pass>,
}

/// Why a conversation does not move, if it does not: `known` is whether the workspace
/// it is to move to exists.
pub open spec fn leave_refusal(
    list: Seq<Session>,
    id: SessionId,
    dest: Seq<char>,
    known: bool,
) -> Option<Said> {
    if !known {
        Some(Said::Failed("unknown workspace "@ + dest))
    } else if !seated(list, id) {
        Some(Said::Failed("unknown session "@ + short(id)))
    } else {
        None
    }
}

/// What a conversation is before it moves.
pub fn leaving(list: &Vec<Session>, id: SessionId, dest: &str, known: bool) -> (r: Result<
    Leaving,
    ApiError,
>)
    ensures
        match leave_refusal(list@, id, dest@, known) {
            Some(why) => r is Err && r->Err_0@ == why,
            None => {
                let s = list@[seat(list@, id)];
                r == Ok::<Leaving, ApiError>(
                    Leaving {
                        cwd: s.cwd,
                        workspace: s.workspace,
                        pty: s.pty,
                        title: s.title,
                        name: s.name,
                        created_at: s.created_at,
                        pass: s.pass,
                    },
                )
            },
        },
{
    if !known {
        return Err(refuse(cat2("unknown workspace ", dest)));
    }
    match locate(list, id) {
        None => {
            let eight: String = short_id(&id);
            Err(refuse(cat2("unknown session ", eight.as_str())))
        },
        Some(i) => {
            let s: &Session = &list[i];
            Ok(
                Leaving {
                    cwd: s.cwd.clone(),
                    workspace: s.workspace.clone(),
                    pty: s.pty,
                    title: copied(&s.title),
                    name: copied(&s.name),
                    created_at: s.created_at,
                    pass: match &s.pass {
                        Some(p) => Some(p.clone()),
                        None => None,
                    },
                },
            )
        },
    }
}

/// The steps of a move.
#[derive(Debug, Clone, Copy, PartialEq, Eq, Structural)]
pub enum Move {
    /// End the process, and wait until it is gone.
    Kill,
    /// Give up main's claim.
    ReleaseMain,
    /// File the transcript under the new directory.
    MoveTranscript,
    /// Resume under the same id, and see that it stays up.
    Resume,
    /// Fork it instead, and see that it stays up.
    Fork,
    /// Put back what the new record does not know.
    Restore,
    /// Neither stayed up.
    GiveUp,
}

/// Whether a move leaves main.
pub open spec fn leaves_main(from: Seq<char>, to: Seq<char>) -> bool {
    from == MAIN@ && to != MAIN@
}

/// What comes after a step of a move. The transcript's own move is best effort, so
/// its outcome changes nothing.
pub open spec fn move_after(last: Option<Move>, ok: bool, running: bool, out_of_main: bool)
    -> Option<Move> {
    match last {
        None => if running {
            Some(Move::Kill)
        } else if out_of_main {
            Some(Move::ReleaseMain)
        } else {
            Some(Move::MoveTranscript)
        },
        Some(Move::Kill) => if out_of_main {
            Some(Move::ReleaseMain)
        } else {
            Some(Move::MoveTranscript)
        },
        Some(Move::ReleaseMain) => Some(Move::MoveTranscript),
        Some(Move::MoveTranscript) => Some(Move::Resume),
        Some(Move::Resume) => if ok {
            Some(Move::Restore)
        } else {
            Some(Move::Fork)
        },
        Some(Move::Fork) => if ok {
            Some(Move::Restore)
        } else {
            Some(Move::GiveUp)
        },
        Some(Move::Restore) => None,
        Some(Move::GiveUp) => None,
    }
}

/// The next step of a move, after `last` went well or did not.
pub fn relocate_session(last: Option<Move>, ok: bool, running: bool, from: &str, to: &str) -> (r:
    Option<Move>)
    ensures
        r == move_after(last, ok, running, leaves_main(from@, to@)),
{
    let out_of_main: bool = same(from, MAIN) && !same(to, MAIN);
    match last {
        None => if running {
            Some(Move::Kill)
        } else if out_of_main {
            Some(Move::ReleaseMain)
        } else {
            Some(Move::MoveTranscript)
        },
        Some(Move::Kill) => if out_of_main {
            Some(Move::ReleaseMain)
        } else {
            Some(Move::MoveTranscript)
        },
        Some(Move::ReleaseMain) => Some(Move::MoveTranscript),
        Some(Move::MoveTranscript) => Some(Move::Resume),
        Some(Move::Resume) => if ok {
            Some(Move::Restore)
        } else {
            Some(Move::Fork)
        },
        Some(Move::Fork) => if ok {
            Some(Move::Restore)
        } else {
            Some(Move::GiveUp)
        },
        Some(Move::Restore) => None,
        Some(Move::GiveUp) => None,
    }
}

/// The moves made so far with their outcomes, in order.
pub open spec fn is_move(steps: Seq<(Move, bool)>, running: bool, out_of_main: bool) -> bool {
    forall|i: int|
        0 <= i < steps.len() ==> Some((#[trigger] steps[i]).0) == move_after(
            if i == 0 {
                None
            } else {
                Some(steps[i - 1].0)
            },
            i > 0 && steps[i - 1].1,
            running,
            out_of_main,
        )
}

/// Nothing is resumed while the old process runs or, where the conversation leaves main,
/// before main's claim is given up; and a fork is tried only once the resume has failed.
pub proof fn a_move_never_resumes_early(
    steps: Seq<(Move, bool)>,
    running: bool,
    out_of_main: bool,
    i: int,
)
    requires
        is_move(steps, running, out_of_main),
        0 <= i < steps.len(),
        steps[i].0 == Move::Resume || steps[i].0 == Move::Fork,
    ensures
        running ==> steps[0].0 == Move::Kill,
        out_of_main ==> exists|j: int| 0 <= j < i && steps[j].0 == Move::ReleaseMain,
        steps[i].0 == Move::Fork ==> steps[i - 1] == (Move::Resume, false),
{
    let r = if steps[i].0 == Move::Fork {
        i - 1
    } else {
        i
    };
    assert(Some(steps[i].0) == move_after(
        if i == 0 {
            None
        } else {
            Some(steps[i - 1].0)
        },
        i > 0 && steps[i - 1].1,
        running,
        out_of_main,
    ));
    assert(steps[r].0 == Move::Resume);
    assert(steps[r - 1].0 == Move::MoveTranscript);
    let before = steps[r - 1].0;
    assert(Some(steps[0].0) == move_after(None, false, running, out_of_main));
    if r >= 2 {
        let two = steps[r - 2].0;
        assert(Some(before) == move_after(Some(two), steps[r - 2].1, running, out_of_main));
        if two == Move::ReleaseMain && r >= 3 {
            let three = steps[r - 3].0;
            assert(Some(two) == move_after(Some(three), steps[r - 3].1, running, out_of_main));
            if r >= 4 {
                assert(Some(three) == move_after(
                    Some(steps[r - 4].0),
                    steps[r - 4].1,
                    running,
                    out_of_main,
                ));
            }
        }
        if two == Move::Kill && r >= 3 {
            assert(Some(two) == move_after(
                Some(steps[r - 3].0),
                steps[r - 3].1,
                running,
                out_of_main,
            ));
        }
    }
}

/// Whether a move is over after these steps.
pub open spec fn is_move_over(
    steps: Seq<(Move, bool)>,
    running: bool,
    out_of_main: bool,
) -> bool {
    steps.len() > 0 && move_after(Some(steps.last().0), steps.last().1, running, out_of_main)
        is None
}

/// A move that is over ended what ran, gave main up exactly where it left main, filed the
/// transcript and tried to resume, whatever came of the filing. It put back what the resume
/// reset wherever the resume or the fork stayed up, tried the fork wherever the resume did
/// not, and gave up only where neither did.
pub proof fn a_move_is_carried_through(
    steps: Seq<(Move, bool)>,
    running: bool,
    out_of_main: bool,
)
    requires
        is_move(steps, running, out_of_main),
        is_move_over(steps, running, out_of_main),
    ensures
        ({
            let k: int = (if running {
                1int
            } else {
                0
            }) + (if out_of_main {
                1int
            } else {
                0
            });
            &&& running ==> steps[0].0 == Move::Kill
            &&& out_of_main ==> steps[k - 1].0 == Move::ReleaseMain
            &&& steps.len() >= k + 3
            &&& steps[k].0 == Move::MoveTranscript
            &&& steps[k + 1].0 == Move::Resume
            &&& steps[k + 1].1 ==> steps.len() == k + 3 && steps[k + 2].0 == Move::Restore
            &&& !steps[k + 1].1 ==> steps.len() == k + 4 && steps[k + 2].0 == Move::Fork
                && steps[k + 3].0 == if steps[k + 2].1 {
                Move::Restore
            } else {
                Move::GiveUp
            }
        }),
{
    let n = steps.len() as int;
    assert(Some(steps[0].0) == move_after(None, false, running, out_of_main));
    if n > 1 {
        assert(Some(steps[1].0) == move_after(
            Some(steps[0].0),
            steps[0].1,
            running,
            out_of_main,
        ));
    }
    if n > 2 {
        assert(Some(steps[2].0) == move_after(
            Some(steps[1].0),
            steps[1].1,
            running,
            out_of_main,
        ));
    }
    if n > 3 {
        assert(Some(steps[3].0) == move_after(
            Some(steps[2].0),
            steps[2].1,
            running,
            out_of_main,
        ));
    }
    if n > 4 {
        assert(Some(steps[4].0) == move_after(
            Some(steps[3].0),
            steps[3].1,
            running,
            out_of_main,
        ));
    }
    if n > 5 {
        assert(Some(steps[5].0) == move_after(
            Some(steps[4].0),
            steps[4].1,
            running,
            out_of_main,
        ));
    }
    if n > 6 {
        assert(Some(steps[6].0) == move_after(
            Some(steps[5].0),
            steps[5].1,
            running,
            out_of_main,
        ));
    }
}

/// Main's claim is given up by whoever leaves it for another workspace, and by nobody else:
/// not by a restart in place, and not between two worktrees.
pub proof fn only_who_leaves_main_gives_it_up(from: Seq<char>, to: Seq<char>)
    ensures
        leaves_main("main"@, to) <==> to != "main"@,
        from != "main"@ ==> !leaves_main(from, to),
{
}

/// A conversation moves wherever it is on record and the workspace it is to move to is
/// known, and what it was is read from its own record.
pub proof fn a_known_conversation_may_move(
    list: Seq<Session>,
    id: SessionId,
    dest: Seq<char>,
    known: bool,
    i: int,
)
    requires
        0 <= i < list.len(),
        list[i].id == id,
        forall|k: int| 0 <= k < i ==> (#[trigger] list[k]).id != id,
    ensures
        leave_refusal(list, id, dest, known) is None <==> known,
        list[seat(list, id)] == list[i],
{
    crate::sessions::lemma_seat(list, id, i);
}

/// What a failed move is told: the conversation is closed and intact.
pub open spec fn stranded_text(id: SessionId, dest: Seq<char>, why: Seq<char>) -> Seq<char> {
    "neither resuming nor forking "@ + short(id) + " into "@ + dest
        + " stayed up; it is closed but its conversation is intact and resumable: "@ + why
}

/// Where a conversation ended up, or why the fork did not stay up either.
pub open spec fn ended_up(
    id: SessionId,
    resumed: bool,
    forked: Result<SessionId, String>,
) -> Result<Relocated, String> {
    if resumed {
        Ok(Relocated { id, degraded: false })
    } else {
        match forked {
            Ok(new_id) => Ok(Relocated { id: new_id, degraded: true }),
            Err(why) => Err(why),
        }
    }
}

/// A conversation keeps its id wherever its resume stayed up, whatever a fork would have
/// come to, and is reported as less than what was promised exactly where it is a fork.
pub proof fn a_resumed_conversation_keeps_its_id(
    id: SessionId,
    fork: SessionId,
    why: String,
    forked: Result<SessionId, String>,
)
    ensures
        ended_up(id, true, forked) == Ok::<Relocated, String>(Relocated { id, degraded: false }),
        ended_up(id, false, Ok(fork)) == Ok::<Relocated, String>(
            Relocated { id: fork, degraded: true },
        ),
        ended_up(id, false, Err(why)) is Err,
{
}

/// Where a conversation ended up: under its own id where the resume stayed up, under the
/// fork's where only that did. `resumed` is whether the resume stayed up, and `forked` the
/// fork's id or why it did not stay up either.
pub fn relocated(
    id: SessionId,
    dest: &str,
    resumed: bool,
    forked: Result<SessionId, String>,
) -> (r: Result<Relocated, ApiError>)
    ensures
        match ended_up(id, resumed, forked) {
            Ok(there) => r == Ok::<Relocated, ApiError>(there),
            Err(why) => r is Err && r->Err_0@ == Said::Failed(stranded_text(id, dest@, why@)),
        },
{
    if resumed {
        return Ok(Relocated { id, degraded: false });
    }
    match forked {
        Ok(new_id) => Ok(Relocated { id: new_id, degraded: true }),
        Err(why) => {
            let eight: String = short_id(&id);
            let mut text: String = cat4(
                "neither resuming nor forking ",
                eight.as_str(),
                " into ",
                dest,
            );
            text.append(
                " stayed up; it is closed but its conversation is intact and resumable: ",
            );
            text.append(why.as_str());
            Err(refuse(text))
        },
    }
}

/// A moved record with what the resume reset put back.
pub open spec fn restored(s: Session, was: Leaving, transcript: Option<String>) -> Session {
    Session {
        title: if s.title is None {
            was.title
        } else {
            s.title
        },
        name: if s.name is None {
            was.name
        } else {
            s.name
        },
        created_at: was.created_at,
        transcript_path: transcript,
        ..s
    }
}

/// A moved conversation goes by what it went by and began when it began, unless its new
/// record knows a title or a name of its own; its transcript is where it was found; and
/// nothing else of the new record changes.
pub proof fn a_moved_conversation_goes_by_its_name(
    s: Session,
    was: Leaving,
    transcript: Option<String>,
)
    ensures
        s.title is None ==> restored(s, was, transcript).title == was.title,
        s.name is None ==> restored(s, was, transcript).name == was.name,
        s.title is Some ==> restored(s, was, transcript).title == s.title,
        s.name is Some ==> restored(s, was, transcript).name == s.name,
        restored(s, was, transcript).created_at == was.created_at,
        restored(s, was, transcript).transcript_path == transcript,
        restored(s, was, transcript) == (Session {
            title: restored(s, was, transcript).title,
            name: restored(s, was, transcript).name,
            created_at: was.created_at,
            transcript_path: transcript,
            ..s
        }),
{
}

/// Put back what the resume reset: the title and the name where the new record has
/// none, when it began, and where its transcript was found.
pub fn restore_after_relocate(
    list: &mut Vec<Session>,
    id: SessionId,
    was: Leaving,
    transcript: Option<String>,
)
    ensures
        same_ids(old(list)@, final(list)@),
        if seated(old(list)@, id) {
            let i = seat(old(list)@, id);
            final(list)@ == old(list)@.update(i, restored(old(list)@[i], was, transcript))
        } else {
            final(list)@ == old(list)@
        },
{
    match locate(list, id) {
        Some(i) => {
            let s: &mut Session = &mut list[i];
            if s.title.is_none() {
                s.title = was.title;
            }
            if s.name.is_none() {
                s.name = was.name;
            }
            s.created_at = was.created_at;
            s.transcript_path = transcript;
            proof {
                crate::sessions::lemma_seat_found(old(list)@, id);
            }
        },
        None => {},
    }
}

// ---------------------------------------------------------------------------
// A new worktree
// ---------------------------------------------------------------------------

/// Why a worktree of this name is not cut, if it is not: `taken` is whether a workspace
/// has the name, and `on_disk` the path in its way.
pub open spec fn worktree_refusal(
    name: Option<Seq<char>>,
    taken: bool,
    on_disk: Option<Seq<char>>,
) -> Option<Said> {
    match name {
        None => None,
        Some(n) => if name_refusal(n) is Some {
            name_refusal(n)
        } else if taken {
            Some(Said::Failed("a workspace named "@ + n + " already exists"@))
        } else {
            match on_disk {
                Some(path) => Some(Said::Failed(path + " already exists on disk"@)),
                None => None,
            }
        },
    }
}

/// Whether a worktree can be cut under the name asked for, if one was. Two refusals
/// are about the present: a name that a live workspace holds, and a directory already
/// on disk.
pub fn check_worktree_name(name: Option<&str>, taken: bool, on_disk: Option<&str>) -> (r: Result<
    (),
    ApiError,
>)
    ensures
        match worktree_refusal(opt_str(name), taken, opt_str(on_disk)) {
            None => r is Ok,
            Some(why) => r is Err && r->Err_0@ == why,
        },
{
    match name {
        None => Ok(()),
        Some(n) => {
            match validate_worktree_name(n) {
                Err(e) => {
                    return Err(e);
                },
                Ok(()) => {},
            }
            if taken {
                return Err(refuse(cat3("a workspace named ", n, " already exists")));
            }
            match on_disk {
                Some(path) => Err(refuse(cat2(path, " already exists on disk"))),
                None => Ok(()),
            }
        },
    }
}

/// The steps of opening a session in a new worktree.
#[derive(Debug, Clone, Copy, PartialEq, Eq, Structural)]
pub enum Opening {
    /// Read the commit the forked conversation stands on.
    ReadParentHead,
    CutTree,
    RunHooks,
    /// Copy the parent's uncommitted work in.
    CarryWork,
    ReadEnvironment,
    Register,
    /// Read the branch the tree really holds.
    ReadBranch,
    /// Put the record in and start the agent.
    Start,
    /// Top the pool of spares back up.
    RefillPool,
}

pub open spec fn opening(claimed: bool, has_parent: bool) -> Seq<Opening> {
    (if has_parent {
        seq![Opening::ReadParentHead]
    } else {
        Seq::empty()
    }) + (if claimed {
        Seq::empty()
    } else {
        seq![Opening::CutTree, Opening::RunHooks]
    }) + (if has_parent {
        seq![Opening::CarryWork]
    } else {
        Seq::empty()
    }) + seq![
        Opening::ReadEnvironment,
        Opening::Register,
        Opening::ReadBranch,
        Opening::Start,
        Opening::RefillPool,
    ]
}

/// The steps of opening a session in a new worktree, in order. A claimed spare was cut
/// and put through the hooks before, so neither is done again; a parent's work is copied
/// before the agent can see the tree.
pub fn opening_steps(claimed: bool, has_parent: bool) -> (r: Vec<Opening>)
    ensures
        r@ == opening(claimed, has_parent),
{
    let mut out: Vec<Opening> = Vec::new();
    if has_parent {
        out.push(Opening::ReadParentHead);
    }
    if !claimed {
        out.push(Opening::CutTree);
        out.push(Opening::RunHooks);
    }
    if has_parent {
        out.push(Opening::CarryWork);
    }
    out.push(Opening::ReadEnvironment);
    out.push(Opening::Register);
    out.push(Opening::ReadBranch);
    out.push(Opening::Start);
    out.push(Opening::RefillPool);
    proof {
        assert(out@ =~= opening(claimed, has_parent));
    }
    out
}

/// What a worktree for a session is to be.
pub struct WorktreePlan {
    pub name: String,
    pub branch: String,
    /// What it is cut from.
    pub base: String,
    pub steps: Vec<Opening>,
}

/// What was read before a worktree is planned.
pub struct WorktreeAsk {
    /// The name asked for, if one was.
    pub name: Option<String>,
    /// The path in its way, if something is there.
    pub on_disk: Option<String>,
    /// The conversation that is forked, if one is.
    pub fork: Option<SessionId>,
    /// The tree of the forked conversation, where it still stands: the commit it is on,
    /// if that could be read.
    pub parent: Option<Option<String>>,
    /// The spare that was claimed, where one could be.
    pub spare: Option<String>,
    /// The names that could be given, in the order they are tried.
    pub candidates: Vec<Candidate>,
    /// The names that workspaces go by.
    pub held: Vec<String>,
}

/// The spare that a request is given: only one that asks for no name and forks nothing
/// is given any.
pub open spec fn given_spare(ask: WorktreeAsk) -> Option<Seq<char>> {
    if ask.name is None && ask.fork is None {
        opt_text(ask.spare)
    } else {
        None
    }
}

/// The commit that a fork's parent stands on, where there is one to stand on.
pub open spec fn parent_head(ask: WorktreeAsk) -> Option<Seq<char>> {
    match ask.parent {
        Some(head) => opt_text(head),
        None => None,
    }
}

/// Why the worktree asked for is not cut, if it is not.
pub open spec fn ask_refusal(ask: WorktreeAsk) -> Option<Said> {
    worktree_refusal(
        opt_text(ask.name),
        ask.name is Some && texts(ask.held@).contains(ask.name->Some_0@),
        opt_text(ask.on_disk),
    )
}

/// What a worktree for a session is to be: named as asked, else the spare's own name or
/// a free one, on a branch of that name, cut from the parent's commit or the upstream
/// base. A refusal costs nothing: it comes before anything is cut.
pub fn spawn_worktree_session(ask: &WorktreeAsk, id: SessionId, upstream_ref: &str) -> (r: Result<
    WorktreePlan,
    ApiError,
>)
    ensures
        match ask_refusal(*ask) {
            Some(why) => r is Err && r->Err_0@ == why,
            None => {
                &&& r is Ok
                &&& r->Ok_0.name@ == worktree_name(
                    opt_text(ask.name),
                    given_spare(*ask),
                    first_free(ask.candidates@, texts(ask.held@)),
                    id,
                )
                &&& r->Ok_0.branch@ == worktree_branch(r->Ok_0.name@)
                &&& r->Ok_0.base@ == match parent_head(*ask) {
                    Some(h) => h,
                    None => upstream_ref@,
                }
                &&& r->Ok_0.steps@ == opening(given_spare(*ask) is Some, ask.parent is Some)
            },
        },
{
    let asked: Option<&str> = as_deref(&ask.name);
    let taken: bool = match asked {
        Some(n) => listed(&ask.held, n),
        None => false,
    };
    match check_worktree_name(asked, taken, as_deref(&ask.on_disk)) {
        Err(e) => {
            return Err(e);
        },
        Ok(()) => {},
    }
    let spare: Option<&str> = if takes_a_spare(asked, ask.fork) {
        as_deref(&ask.spare)
    } else {
        None
    };
    let name: String = choose_worktree_name(asked, spare, &ask.candidates, &ask.held, id);
    let branch: String = worktree_branch_of(name.as_str());
    let head: Option<&str> = match &ask.parent {
        Some(h) => as_deref(h),
        None => None,
    };
    let base: String = worktree_base(head, upstream_ref);
    let steps: Vec<Opening> = opening_steps(spare.is_some(), ask.parent.is_some());
    Ok(WorktreePlan { name, branch, base, steps })
}

/// A session is never put into a tree that was cut for somebody else: a worktree that is
/// cut, rather than claimed, has the name asked for or one that no workspace and no
/// directory has.
pub proof fn a_cut_worktree_has_a_free_name(ask: WorktreeAsk, id: SessionId)
    requires
        ask_refusal(ask) is None,
        given_spare(ask) is None,
        ask.name is Some || first_free(ask.candidates@, texts(ask.held@)) is Some,
    ensures
        ({
            let name = worktree_name(
                opt_text(ask.name),
                None,
                first_free(ask.candidates@, texts(ask.held@)),
                id,
            );
            &&& !texts(ask.held@).contains(name)
            &&& ask.name is Some ==> ask.on_disk is None && name_refusal(name) is None
            &&& ask.name is None ==> exists|i: int|
                0 <= i < ask.candidates@.len() && (#[trigger] ask.candidates@[i]).name@ == name
                    && !ask.candidates@[i].on_disk
        }),
{
    lemma_first_free(ask.candidates@, texts(ask.held@));
}

/// A worktree is what was asked for: under the name asked for where one was, on a branch of
/// its own name, and cut from the commit that a forked conversation stands on, or else from
/// the upstream base. A spare is used exactly where no name was asked for, nothing is forked
/// and one was to be had, and is neither cut nor put through the hooks again; and a fork gets
/// the work of the tree it was cut from before its agent starts.
pub proof fn a_worktree_is_what_was_asked_for(ask: WorktreeAsk)
    ensures
        ask.name is Some || ask.fork is Some || ask.spare is None ==> given_spare(ask) is None,
        ask.name is None && ask.fork is None && ask.spare is Some ==> given_spare(ask) == Some(
            ask.spare->Some_0@,
        ),
        ({
            let steps = opening(given_spare(ask) is Some, ask.parent is Some);
            &&& steps.contains(Opening::CutTree) <==> given_spare(ask) is None
            &&& steps.contains(Opening::RunHooks) <==> given_spare(ask) is None
            &&& steps.contains(Opening::CarryWork) <==> ask.parent is Some
            &&& steps.contains(Opening::ReadParentHead) <==> ask.parent is Some
            &&& steps.contains(Opening::ReadEnvironment)
            &&& steps.contains(Opening::Register)
            &&& steps.contains(Opening::ReadBranch)
            &&& steps.contains(Opening::Start)
            &&& steps.contains(Opening::RefillPool)
        }),
        forall|a: int, b: int|
            0 <= a < b < opening(given_spare(ask) is Some, ask.parent is Some).len()
                ==> opening_turn(#[trigger] opening(given_spare(ask) is Some, ask.parent is Some)[a])
                < opening_turn(#[trigger] opening(given_spare(ask) is Some, ask.parent is Some)[b]),
{
    let steps = opening(given_spare(ask) is Some, ask.parent is Some);
    let n = steps.len() as int;
    assert(steps[n - 5] == Opening::ReadEnvironment && steps[n - 4] == Opening::Register && steps[n
        - 3] == Opening::ReadBranch && steps[n - 2] == Opening::Start && steps[n - 1]
        == Opening::RefillPool);
    if ask.parent is Some {
        assert(steps[0] == Opening::ReadParentHead && steps[n - 6] == Opening::CarryWork);
        if given_spare(ask) is None {
            assert(steps[1] == Opening::CutTree && steps[2] == Opening::RunHooks);
        }
    } else if given_spare(ask) is None {
        assert(steps[0] == Opening::CutTree && steps[1] == Opening::RunHooks);
    }
}

/// When a step of opening a worktree has its turn.
pub open spec fn opening_turn(s: Opening) -> int {
    match s {
        Opening::ReadParentHead => 0,
        Opening::CutTree => 1,
        Opening::RunHooks => 2,
        Opening::CarryWork => 3,
        Opening::ReadEnvironment => 4,
        Opening::Register => 5,
        Opening::ReadBranch => 6,
        Opening::Start => 7,
        Opening::RefillPool => 8,
    }
}

/// A worktree is refused only for its name: where none was asked for nothing is refused, and
/// one that is valid is refused exactly where a workspace or a directory has it.
pub proof fn a_worktree_is_refused_only_for_its_name(ask: WorktreeAsk, name: String)
    ensures
        ask.name is None ==> ask_refusal(ask) is None,
        ask.name == Some(name) && name_refusal(name@) is None ==> (ask_refusal(ask) is None <==> !texts(
            ask.held@,
        ).contains(name@) && ask.on_disk is None),
        ask.name == Some(name) && name_refusal(name@) is Some ==> ask_refusal(ask) is Some,
{
}

/// A fork is cut from the commit its conversation stands on, wherever that could be read,
/// and everything else from the upstream base.
pub proof fn a_fork_is_cut_from_its_parent(ask: WorktreeAsk, head: String)
    ensures
        ask.parent == Some(Some(head)) ==> parent_head(ask) == Some(head@),
        ask.parent is None || ask.parent == Some(None::<String>) ==> parent_head(ask) is None,
{
}

/// Whoever is told that a conversation is stranded is told which, where it was to go, and why.
pub proof fn a_stranded_conversation_is_named(id: SessionId, dest: Seq<char>, why: Seq<char>)
    ensures
        ("neither resuming nor forking "@ + short(id) + " into "@ + dest).is_prefix_of(
            stranded_text(id, dest, why),
        ),
        why.is_suffix_of(stranded_text(id, dest, why)),
{
    let t = stranded_text(id, dest, why);
    let head = "neither resuming nor forking "@ + short(id) + " into "@ + dest;
    assert(t.subrange(0, head.len() as int) =~= head);
    assert(t.subrange(t.len() - why.len(), t.len() as int) =~= why);
}

/// How far into a move a step stands.
pub open spec fn move_turn(step: Move) -> int {
    match step {
        Move::Kill => 0,
        Move::ReleaseMain => 1,
        Move::MoveTranscript => 2,
        Move::Resume => 3,
        Move::Fork => 4,
        Move::Restore => 5,
        Move::GiveUp => 5,
    }
}

#[verifier::spinoff_prover]
#[verifier::rlimit(50)]
proof fn lemma_move_turns(
    steps: Seq<(Move, bool)>,
    running: bool,
    out_of_main: bool,
    i: int,
    j: int,
)
    requires
        is_move(steps, running, out_of_main),
        0 <= i < j < steps.len(),
    ensures
        move_turn(steps[i].0) < move_turn(steps[j].0),
    decreases j - i,
{
    assert(Some(steps[j].0) == move_after(
        Some(steps[j - 1].0),
        steps[j - 1].1,
        running,
        out_of_main,
    ));
    if i < j - 1 {
        lemma_move_turns(steps, running, out_of_main, i, j - 1);
    }
}

/// Every move starts, whatever it starts with, does no step twice, and ends with what was put
/// back or with giving up.
pub proof fn a_move_never_goes_back(
    steps: Seq<(Move, bool)>,
    running: bool,
    out_of_main: bool,
    ok: bool,
    i: int,
    j: int,
)
    ensures
        move_after(None, ok, running, out_of_main) == Some(
            if running {
                Move::Kill
            } else if out_of_main {
                Move::ReleaseMain
            } else {
                Move::MoveTranscript
            },
        ),
        is_move(steps, running, out_of_main) && 0 <= i < j < steps.len() ==> steps[i].0
            != steps[j].0,
        is_move_over(steps, running, out_of_main) ==> steps.last().0 is Restore
            || steps.last().0 is GiveUp,
{
    if is_move(steps, running, out_of_main) && 0 <= i < j < steps.len() {
        lemma_move_turns(steps, running, out_of_main, i, j);
    }
}

} // verus!
