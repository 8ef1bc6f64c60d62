//! Sessions and processes: starting, naming, ending, resuming and forking them.

use vstd::prelude::*;
use vstd::string::*;
use crate::api::archive::Conversation;
use crate::api::talk::{ask_key_refusal, ask_token_ok, has_terminal, live_terminal, Keys};
use crate::api::{no_such_session, refuse, refuse_busy, unknown_session, ApiError, Said};
use crate::ids::{hyphenated, session_text, short, short_id};
use crate::managed::{others, take_out, ManagedSpec};
use crate::model::{
    ArchiveState, Pass, Process, Pty, Session, SessionId, State, TurnReason, Workspace, MAIN,
};
use crate::restart::Which;
use crate::sessions::{lemma_seat, lemma_seat_found, locate, same_ids, seat, seated};
use crate::spaces::{find_home, processes_in};
use crate::spawn::{Source, PENDING_WORKTREE};
use crate::text::{
    cat2, cat3, cat4, cat5, first_chars, ink, ink_of, join, joined, listed, opt_str, opt_text,
    same, sort, sorted, take_chars, texts, trimmed,
};

verus! {

pub struct NewSession {
    pub workspace: String,
}

pub struct NewWorktree {
    /// Absent means the daemon names it.
    pub name: Option<String>,
}

pub struct Rename {
    /// Blank means back to the agent's own title.
    pub name: Option<String>,
}

pub struct SpawnBody {
    /// An existing workspace to work in.
    pub workspace: Option<String>,
    /// Cut a fresh worktree for the new session instead.
    pub worktree: bool,
    /// What to call that worktree.
    pub name: Option<String>,
    /// Typed into the new session once it is up.
    pub prompt: Option<String>,
}

pub struct ProcessBody {
    /// Which configured process to start. A name, never a command.
    pub name: String,
}

pub struct RestartAsk {
    /// Take the session back out of the queue instead.
    pub cancel: bool,
}

pub struct RestartAll {
    /// Only the sessions an upgrade left behind.
    pub stale: bool,
}

pub struct AdoptOutside {
    /// Take it over although the transcript was written to moments ago.
    pub force: bool,
}

pub struct TeardownBody {
    pub workspace: String,
}

// ---------------------------------------------------------------------------
// One live session per workspace
// ---------------------------------------------------------------------------

/// What a session is called in a refusal: its label where it is on record and has one,
/// else its short id.
pub open spec fn held_by(list: Seq<Session>, id: SessionId) -> Seq<char> {
    if seated(list, id) && list[seat(list, id)].called() is Some {
        list[seat(list, id)].called()->Some_0
    } else {
        short(id)
    }
}

/// Why a workspace takes no further session, if it takes none: `live` is the first live
/// session there.
pub open spec fn occupied_refusal(
    list: Seq<Session>,
    workspace: Seq<char>,
    several_in_main: bool,
    live: Option<SessionId>,
) -> Option<Said> {
    if workspace == MAIN@ && several_in_main {
        None
    } else {
        match live {
            None => None,
            Some(held) => Some(
                Said::Failed(
                    workspace + " already has a live session ("@ + held_by(list, held)
                        + "); close it before starting another"@,
                ),
            ),
        }
    }
}

/// Refuse if a workspace already holds a live session. Main alone may be allowed
/// several.
pub fn refuse_if_occupied(
    list: &Vec<Session>,
    workspace: &str,
    several_in_main: bool,
    live: Option<SessionId>,
) -> (r: Result<(), ApiError>)
    ensures
        match occupied_refusal(list@, workspace@, several_in_main, live) {
            None => r is Ok,
            Some(why) => r is Err && r->Err_0@ == why,
        },
{
    if same(workspace, MAIN) && several_in_main {
        return Ok(());
    }
    let held: SessionId = match live {
        Some(id) => id,
        None => {
            return Ok(());
        },
    };
    let who: String = match locate(list, held) {
        Some(i) => match list[i].label() {
            Some(l) => l.to_owned(),
            None => short_id(&held),
        },
        None => short_id(&held),
    };
    Err(
        refuse(
            cat4(
                workspace,
                " already has a live session (",
                who.as_str(),
                "); close it before starting another",
            ),
        ),
    )
}

/// A workspace takes a session wherever no other is live there, and main alone may take
/// several. Who is in the way goes by the name you gave it.
pub proof fn a_workspace_takes_one_session(
    list: Seq<Session>,
    workspace: Seq<char>,
    several_in_main: bool,
    live: Option<SessionId>,
    i: int,
)
    ensures
        occupied_refusal(list, workspace, several_in_main, live) is None <==> live is None || (
        several_in_main && workspace == "main"@),
        live is Some && 0 <= i < list.len() && list[i].id == live->Some_0 && (forall|k: int|
            0 <= k < i ==> (#[trigger] list[k]).id != live->Some_0) && list[i].name is Some
            ==> held_by(list, live->Some_0) == list[i].name->Some_0@,
{
    if live is Some && 0 <= i < list.len() && list[i].id == live->Some_0 && (forall|k: int|
        0 <= k < i ==> (#[trigger] list[k]).id != live->Some_0) {
        lemma_seat(list, live->Some_0, i);
    }
}

/// The name asked for a new worktree, if one was.
pub fn new_worktree(body: &NewWorktree) -> (r: Option<String>)
    ensures
        opt_text(r) == ink(opt_text(body.name)),
{
    ink_of(&body.name)
}

// ---------------------------------------------------------------------------
// Naming, rewinding and ending
// ---------------------------------------------------------------------------

/// The longest name a row takes, in characters.
pub const NAME_MAX: usize = 80;

/// The name that a rename gives.
pub open spec fn new_name(body: Rename) -> Option<Seq<char>> {
    match ink(opt_text(body.name)) {
        Some(n) => Some(first_chars(n, NAME_MAX as int)),
        None => None,
    }
}

/// A row goes by the name it was given, without the space around it and down to what a row
/// can show; a blank one gives the row back.
pub proof fn a_row_goes_by_what_it_was_given(body: Rename)
    ensures
        new_name(body) is Some <==> body.name is Some && trimmed(body.name->Some_0@).len() > 0,
        new_name(body) is Some && trimmed(body.name->Some_0@).len() <= 80 ==> new_name(body)
            == Some(trimmed(body.name->Some_0@)),
        new_name(body) is Some && trimmed(body.name->Some_0@).len() > 80
            ==> new_name(body)->Some_0.len() == 80 && new_name(body)->Some_0.is_prefix_of(
            trimmed(body.name->Some_0@),
        ),
{
}

/// Name a session yourself, or hand the row back to the agent's own title.
pub fn rename_session(list: &mut Vec<Session>, id: SessionId, body: &Rename) -> (r: Result<
    (),
    ApiError,
>)
    ensures
        same_ids(old(list)@, final(list)@),
        if seated(old(list)@, id) {
            let i = seat(old(list)@, id);
            &&& r is Ok
            &&& final(list)@ == old(list)@.update(
                i,
                (Session { name: final(list)@[i].name, ..old(list)@[i] }),
            )
            &&& opt_text(final(list)@[i].name) == new_name(*body)
        } else {
            r is Err && r->Err_0@ == unknown_session(id) && final(list)@ == old(list)@
        },
{
    let name: Option<String> = match ink_of(&body.name) {
        Some(n) => Some(take_chars(n.as_str(), NAME_MAX)),
        None => None,
    };
    match locate(list, id) {
        None => Err(no_such_session(id)),
        Some(i) => {
            proof {
                lemma_seat_found(list@, id);
            }
            let s: &mut Session = &mut list[i];
            s.name = name;
            Ok(())
        },
    }
}

/// The terminal of the session to kill.
pub fn kill_session(list: &Vec<Session>, id: SessionId) -> (r: Result<Pty, ApiError>)
    ensures
        if seated(list@, id) && list@[seat(list@, id)].pty is Some {
            r == Ok::<Pty, ApiError>(list@[seat(list@, id)].pty->Some_0)
        } else {
            r is Err && r->Err_0@ == unknown_session(id)
        },
{
    match locate(list, id) {
        Some(i) => match list[i].pty {
            Some(p) => Ok(p),
            None => Err(no_such_session(id)),
        },
        None => Err(no_such_session(id)),
    }
}

/// Why the rewind picker cannot be opened, if it cannot.
pub open spec fn rewind_refusal(list: Seq<Session>, id: SessionId) -> Option<Said> {
    if !seated(list, id) {
        Some(unknown_session(id))
    } else {
        let s = list[seat(list, id)];
        if !s.had_a_turn {
            Some(Said::Failed("this session has no conversation to rewind"@))
        } else {
            match s.state {
                State::YourTurn { reason: TurnReason::AskedAQuestion, .. } => Some(
                    Said::Failed(
                        "it is asking you something — an escape would cancel the question, not rewind"@,
                    ),
                ),
                State::YourTurn { reason: TurnReason::NeedsPermission, .. } => Some(
                    Said::Failed(
                        "it is waiting for permission — an escape would decline it, not rewind"@,
                    ),
                ),
                State::YourTurn { .. } => if has_terminal(s) {
                    None
                } else {
                    Some(
                        Said::Failed("session "@ + hyphenated(id) + " has no live terminal"@),
                    )
                },
                other => Some(
                    Said::Failed(
                        "the picker only opens at the prompt, and this session is "@ + (
                        if other is Working {
                            "mid-turn"@
                        } else if other is Starting {
                            "still starting"@
                        } else {
                            "not live"@
                        }),
                    ),
                ),
            }
        }
    }
}

/// A conversation can be rewound wherever its session is at the prompt in a live terminal
/// and has said something: not while it asks you something or for permission.
pub proof fn a_session_at_its_prompt_can_be_rewound(list: Seq<Session>, id: SessionId, i: int)
    requires
        0 <= i < list.len(),
        list[i].id == id,
        forall|k: int| 0 <= k < i ==> (#[trigger] list[k]).id != id,
    ensures
        rewind_refusal(list, id) is None <==> list[i].had_a_turn && list[i].pty is Some
            && list[i].pty->Some_0.alive && (list[i].state matches State::YourTurn { reason, .. }
            && reason != TurnReason::AskedAQuestion && reason != TurnReason::NeedsPermission),
{
    lemma_seat(list, id, i);
}

/// The terminal to open the rewind picker in: only a session at its prompt has one to
/// open.
pub fn rewind_session(list: &Vec<Session>, id: SessionId) -> (r: Result<Pty, ApiError>)
    ensures
        match rewind_refusal(list@, id) {
            Some(why) => r is Err && r->Err_0@ == why,
            None => r == Ok::<Pty, ApiError>(list@[seat(list@, id)].pty->Some_0),
        },
{
    let i: usize = match locate(list, id) {
        Some(i) => i,
        None => {
            return Err(no_such_session(id));
        },
    };
    let s: &Session = &list[i];
    if !s.had_a_turn {
        return Err(refuse("this session has no conversation to rewind".to_owned()));
    }
    match &s.state {
        State::YourTurn { reason, .. } => match reason {
            TurnReason::AskedAQuestion => Err(
                refuse(
                    "it is asking you something — an escape would cancel the question, not rewind".to_owned(),
                ),
            ),
            TurnReason::NeedsPermission => Err(
                refuse(
                    "it is waiting for permission — an escape would decline it, not rewind".to_owned(),
                ),
            ),
            _ => match live_terminal(s) {
                Some(p) => Ok(p),
                None => {
                    let text: String = session_text(id);
                    Err(refuse(cat3("session ", text.as_str(), " has no live terminal")))
                },
            },
        },
        State::Working => Err(
            refuse(
                cat2("the picker only opens at the prompt, and this session is ", "mid-turn"),
            ),
        ),
        State::Starting => Err(
            refuse(
                cat2(
                    "the picker only opens at the prompt, and this session is ",
                    "still starting",
                ),
            ),
        ),
        _ => Err(
            refuse(
                cat2("the picker only opens at the prompt, and this session is ", "not live"),
            ),
        ),
    }
}

/// What forgetting a session outright does, in order.
#[derive(Debug, Clone, Copy, PartialEq, Eq, Structural)]
pub enum Forget {
    /// End its process, and wait until it is gone.
    Kill,
    ReleaseMain,
    /// Drop the record.
    Remove,
    /// Delete the daemon's own copy of the transcript.
    DeleteCopy,
}

/// What forgetting a session outright does, in order.
pub open spec fn forgetting(s: Session) -> Seq<Forget> {
    (if s.pty is Some {
        seq![Forget::Kill]
    } else {
        Seq::empty()
    }) + seq![Forget::ReleaseMain, Forget::Remove] + (if s.archived_transcript is Some {
        seq![Forget::DeleteCopy]
    } else {
        Seq::empty()
    })
}

/// A session that is forgotten is ended first where it has a terminal, gives main up before
/// its record goes, and takes the daemon's copy of its transcript with it where there is one;
/// each is done once.
pub proof fn what_is_forgotten_goes_whole(s: Session, i: int, j: int)
    ensures
        forgetting(s).contains(Forget::Remove),
        forgetting(s).contains(Forget::ReleaseMain),
        forgetting(s).contains(Forget::Kill) <==> s.pty is Some,
        forgetting(s).contains(Forget::DeleteCopy) <==> s.archived_transcript is Some,
        0 <= i < j < forgetting(s).len() ==> forgetting(s)[i] != forgetting(s)[j],
        0 <= i < forgetting(s).len() && 0 <= j < forgetting(s).len() && forgetting(s)[j]
            == Forget::Remove && (forgetting(s)[i] == Forget::Kill || forgetting(s)[i]
            == Forget::ReleaseMain) ==> i < j,
        0 <= i < forgetting(s).len() && 0 <= j < forgetting(s).len() && forgetting(s)[i]
            == Forget::Kill && forgetting(s)[j] == Forget::ReleaseMain ==> i < j,
        0 <= i < forgetting(s).len() && 0 <= j < forgetting(s).len() && forgetting(s)[j]
            == Forget::DeleteCopy && forgetting(s)[i] == Forget::Remove ==> i < j,
{
    let f = forgetting(s);
    let k: int = if s.pty is Some {
        1
    } else {
        0
    };
    if s.pty is Some {
        assert(f[0] == Forget::Kill);
    }
    assert(f[k] == Forget::ReleaseMain);
    assert(f[k + 1] == Forget::Remove);
    if s.archived_transcript is Some {
        assert(f[k + 2] == Forget::DeleteCopy);
    }
}

/// What forgetting a session outright does, in order: a record is never dropped while
/// its agent runs.
pub fn forget_session(list: &Vec<Session>, id: SessionId) -> (r: Result<Vec<Forget>, ApiError>)
    ensures
        if seated(list@, id) {
            r is Ok && r->Ok_0@ == forgetting(list@[seat(list@, id)])
        } else {
            r is Err && r->Err_0@ == unknown_session(id)
        },
{
    match locate(list, id) {
        None => Err(no_such_session(id)),
        Some(i) => {
            let s: &Session = &list[i];
            let mut out: Vec<Forget> = Vec::new();
            if s.pty.is_some() {
                out.push(Forget::Kill);
            }
            out.push(Forget::ReleaseMain);
            out.push(Forget::Remove);
            if s.archived_transcript.is_some() {
                out.push(Forget::DeleteCopy);
            }
            proof {
                assert(out@ =~= forgetting(*s));
            }
            Ok(out)
        },
    }
}

/// Why a session does not discard another, if it does not.
pub open spec fn discard_refusal(
    list: Seq<Session>,
    keys: Keys,
    id: SessionId,
    child: SessionId,
) -> Option<Said> {
    if ask_key_refusal(list, keys, id) is Some {
        ask_key_refusal(list, keys, id)
    } else if !seated(list, child) {
        Some(unknown_session(child))
    } else if list[seat(list, child)].spawned_by != Some(id) {
        Some(
            Said::Failed(
                hyphenated(child) + " is not a session you spawned; close it in the app"@,
            ),
        )
    } else {
        None
    }
}

/// Whether the tree goes with a spawn that is undone: only one that the same spawn cut,
/// and that has a name.
pub open spec fn takes_tree(s: Session) -> bool {
    s.spawn_cut_worktree && s.workspace@ != MAIN@ && s.workspace@ != PENDING_WORKTREE@
}

/// Undo a spawn: only of a session that this caller spawned. Returns its workspace, and
/// whether the tree goes too.
pub fn discard_spawned(list: &Vec<Session>, keys: &Keys, id: SessionId, child: SessionId) -> (r:
    Result<(String, bool), ApiError>)
    ensures
        match discard_refusal(list@, *keys, id, child) {
            Some(why) => r is Err && r->Err_0@ == why,
            None => {
                let s = list@[seat(list@, child)];
                r == Ok::<(String, bool), ApiError>((s.workspace, takes_tree(s)))
            },
        },
{
    match ask_token_ok(list, keys, id) {
        Err(e) => {
            return Err(e);
        },
        Ok(()) => {},
    }
    let i: usize = match locate(list, child) {
        Some(i) => i,
        None => {
            return Err(no_such_session(child));
        },
    };
    let s: &Session = &list[i];
    let mine: bool = match s.spawned_by {
        Some(by) => by == id,
        None => false,
    };
    if !mine {
        let text: String = session_text(child);
        return Err(
            refuse(
                cat2(
                    text.as_str(),
                    " is not a session you spawned; close it in the app",
                ),
            ),
        );
    }
    let tree: bool = s.spawn_cut_worktree && !same(s.workspace.as_str(), MAIN) && !same(
        s.workspace.as_str(),
        PENDING_WORKTREE,
    );
    Ok((s.workspace.clone(), tree))
}

/// A session discards only what it spawned itself, and never takes main or a tree that
/// was there before with it.
pub proof fn a_session_undoes_only_its_own_spawns(
    list: Seq<Session>,
    keys: Keys,
    id: SessionId,
    child: SessionId,
)
    requires
        discard_refusal(list, keys, id, child) is None,
    ensures
        seated(list, child),
        list[seat(list, child)].spawned_by == Some(id),
        takes_tree(list[seat(list, child)]) ==> list[seat(list, child)].spawn_cut_worktree
            && list[seat(list, child)].workspace@ != MAIN@,
{
}

/// What a session spawned it can always undo, and the tree goes with it wherever the spawn cut
/// one that has its name.
pub proof fn a_spawner_may_undo_its_spawn(
    list: Seq<Session>,
    keys: Keys,
    id: SessionId,
    child: SessionId,
    i: int,
)
    requires
        0 <= i < list.len(),
        list[i].id == child,
        forall|k: int| 0 <= k < i ==> (#[trigger] list[k]).id != child,
        ask_key_refusal(list, keys, id) is None,
    ensures
        discard_refusal(list, keys, id, child) is None <==> list[i].spawned_by == Some(id),
        takes_tree(list[i]) <==> list[i].spawn_cut_worktree && list[i].workspace@ != "main"@
            && list[i].workspace@ != "\u{2026}creating"@,
{
    lemma_seat(list, child, i);
}

// ---------------------------------------------------------------------------
// One session starts another
// ---------------------------------------------------------------------------

/// Where a spawned session goes.
#[derive(Debug)]
pub enum SpawnAt {
    Workspace(String),
    /// A fresh worktree, with the name asked for it.
    Worktree(Option<String>),
}

/// Why a spawn is refused, if it is. `known` are the workspaces that there are.
pub open spec fn spawn_refusal(
    list: Seq<Session>,
    keys: Keys,
    id: SessionId,
    body: SpawnBody,
    known: Seq<Seq<char>>,
) -> Option<Said> {
    let named = ink(opt_text(body.workspace));
    if ask_key_refusal(list, keys, id) is Some {
        ask_key_refusal(list, keys, id)
    } else if !seated(list, id) {
        Some(unknown_session(id))
    } else if named is Some && body.worktree {
        Some(Said::Failed("name a workspace or ask for a worktree, not both"@))
    } else if named is Some && !known.contains(named->Some_0) {
        Some(
            Said::Failed(
                "unknown workspace "@ + named->Some_0 + " — known: "@ + joined(
                    sorted(known),
                    ", "@,
                ) + ". Use worktree:true to cut a new one"@,
            ),
        )
    } else {
        None
    }
}

/// Whether a spawn cuts a worktree: where it asks for one, or names no workspace from a
/// session in main, which can hold no second one.
pub open spec fn cuts(body: SpawnBody, mine: Seq<char>) -> bool {
    body.worktree || (ink(opt_text(body.workspace)) is None && mine == MAIN@)
}

/// Where a spawned session goes: the workspace named, a fresh worktree, or the caller's
/// own.
pub open spec fn spawned_at(body: SpawnBody, mine: Seq<char>, at: SpawnAt) -> bool {
    match ink(opt_text(body.workspace)) {
        Some(w) => at matches SpawnAt::Workspace(x) && x@ == w,
        None => if cuts(body, mine) {
            at matches SpawnAt::Worktree(n) && opt_text(n) == ink(opt_text(body.name))
        } else {
            at matches SpawnAt::Workspace(x) && x@ == mine
        },
    }
}

/// One session starts another: where it goes, and whether that cuts a worktree.
pub fn spawn_from_session(
    list: &Vec<Session>,
    keys: &Keys,
    id: SessionId,
    body: &SpawnBody,
    known: &Vec<String>,
) -> (r: Result<(SpawnAt, bool), ApiError>)
    ensures
        match spawn_refusal(list@, *keys, id, *body, texts(known@)) {
            Some(why) => r is Err && r->Err_0@ == why,
            None => {
                let mine = list@[seat(list@, id)].workspace@;
                r is Ok && spawned_at(*body, mine, r->Ok_0.0) && r->Ok_0.1 == cuts(*body, mine)
            },
        },
{
    match ask_token_ok(list, keys, id) {
        Err(e) => {
            return Err(e);
        },
        Ok(()) => {},
    }
    let i: usize = match locate(list, id) {
        Some(i) => i,
        None => {
            return Err(no_such_session(id));
        },
    };
    let mine: &str = list[i].workspace.as_str();
    let named: Option<String> = ink_of(&body.workspace);
    if named.is_some() && body.worktree {
        return Err(refuse("name a workspace or ask for a worktree, not both".to_owned()));
    }
    let cut: bool = body.worktree || (named.is_none() && same(mine, MAIN));
    match named {
        Some(w) => {
            if !listed(known, w.as_str()) {
                let names: String = join(&sort(known), ", ");
                return Err(
                    refuse(
                        cat5(
                            "unknown workspace ",
                            w.as_str(),
                            " — known: ",
                            names.as_str(),
                            ". Use worktree:true to cut a new one",
                        ),
                    ),
                );
            }
            Ok((SpawnAt::Workspace(w), cut))
        },
        None => if cut {
            Ok((SpawnAt::Worktree(ink_of(&body.name)), cut))
        } else {
            Ok((SpawnAt::Workspace(mine.to_owned()), cut))
        },
    }
}

/// A session starts another wherever it names a workspace that there is, or none, and does not
/// ask for a worktree beside one it names.
pub proof fn a_session_may_start_another(
    list: Seq<Session>,
    keys: Keys,
    id: SessionId,
    body: SpawnBody,
    known: Seq<Seq<char>>,
)
    requires
        ask_key_refusal(list, keys, id) is None,
        seated(list, id),
    ensures
        spawn_refusal(list, keys, id, body, known) is None <==> body.workspace is None || trimmed(
            body.workspace->Some_0@,
        ).len() == 0 || (!body.worktree && known.contains(trimmed(body.workspace->Some_0@))),
{
}

/// A spawn goes to the workspace it names; where it names none, to a fresh worktree if it asks
/// for one or its caller sits in main, and else beside its caller. It counts as having cut a
/// worktree exactly where it goes to a fresh one.
pub proof fn a_spawn_goes_where_it_was_sent(body: SpawnBody, mine: Seq<char>, at: SpawnAt)
    requires
        spawned_at(body, mine, at),
        body.worktree ==> body.workspace is None || trimmed(body.workspace->Some_0@).len() == 0,
    ensures
        body.workspace is Some && trimmed(body.workspace->Some_0@).len() > 0 ==> (at
            matches SpawnAt::Workspace(w) && w@ == trimmed(body.workspace->Some_0@)),
        (body.workspace is None || trimmed(body.workspace->Some_0@).len() == 0) && (body.worktree
            || mine == "main"@) ==> (at matches SpawnAt::Worktree(n) && opt_text(n) == ink(
            opt_text(body.name),
        )),
        (body.workspace is None || trimmed(body.workspace->Some_0@).len() == 0) && !body.worktree
            && mine != "main"@ ==> (at matches SpawnAt::Workspace(w) && w@ == mine),
        cuts(body, mine) == (at is Worktree),
{
}

/// A spawned session's record, with who spawned it, how, and what to type first.
pub open spec fn is_child(
    before: Session,
    by: SessionId,
    cut: bool,
    prompt: Option<Seq<char>>,
    after: Session,
) -> bool {
    &&& after == (Session {
        spawned_by: Some(by),
        spawn_cut_worktree: cut,
        pending_prompt: after.pending_prompt,
        ..before
    })
    &&& match ink(prompt) {
        Some(p) => opt_text(after.pending_prompt) == Some(p),
        None => after.pending_prompt == before.pending_prompt,
    }
}

/// A spawned session is typed what it was spawned with, and nothing else of it changes but
/// that it knows who spawned it and how.
pub proof fn a_spawned_session_gets_its_prompt(
    before: Session,
    by: SessionId,
    cut: bool,
    prompt: Option<Seq<char>>,
    after: Session,
)
    requires
        is_child(before, by, cut, prompt, after),
    ensures
        prompt is Some && trimmed(prompt->Some_0).len() > 0 ==> after.pending_prompt is Some
            && after.pending_prompt->Some_0@ == trimmed(prompt->Some_0),
        prompt is None || trimmed(prompt->Some_0).len() == 0 ==> after.pending_prompt
            == before.pending_prompt,
        after.spawned_by == Some(by) && after.spawn_cut_worktree == cut,
        after == (Session {
            spawned_by: after.spawned_by,
            spawn_cut_worktree: after.spawn_cut_worktree,
            pending_prompt: after.pending_prompt,
            ..before
        }),
{
}

/// Put on a spawned session's record what makes the spawn undoable, and its prompt.
pub fn record_child(
    list: &mut Vec<Session>,
    child: SessionId,
    by: SessionId,
    cut: bool,
    prompt: &Option<String>,
)
    ensures
        same_ids(old(list)@, final(list)@),
        if seated(old(list)@, child) {
            let i = seat(old(list)@, child);
            final(list)@ == old(list)@.update(i, final(list)@[i]) && is_child(
                old(list)@[i],
                by,
                cut,
                opt_text(*prompt),
                final(list)@[i],
            )
        } else {
            final(list)@ == old(list)@
        },
{
    let words: Option<String> = ink_of(prompt);
    match locate(list, child) {
        Some(i) => {
            proof {
                lemma_seat_found(list@, child);
            }
            let s: &mut Session = &mut list[i];
            if words.is_some() {
                s.pending_prompt = words;
            }
            s.spawned_by = Some(by);
            s.spawn_cut_worktree = cut;
        },
        None => {},
    }
}

/// What one session spawned it can undo, and takes the tree back that the spawn cut.
pub proof fn a_spawn_can_be_undone(
    before: Session,
    by: SessionId,
    cut: bool,
    prompt: Option<Seq<char>>,
    after: Session,
)
    requires
        is_child(before, by, cut, prompt, after),
        before.workspace@ != MAIN@ && before.workspace@ != PENDING_WORKTREE@,
    ensures
        after.spawned_by == Some(by),
        takes_tree(after) == cut,
{
}

// ---------------------------------------------------------------------------
// Processes
// ---------------------------------------------------------------------------

/// The names that a workspace declares processes under.
pub open spec fn spec_names(specs: Seq<ManagedSpec>) -> Seq<Seq<char>> {
    specs.map_values(|s: ManagedSpec| s.name@)
}

pub fn managed_names(specs: &Vec<ManagedSpec>) -> (r: Vec<String>)
    ensures
        texts(r@) == spec_names(specs@),
{
    let mut out: Vec<String> = Vec::new();
    let mut i: usize = 0;
    while i < specs.len()
        invariant
            i <= specs@.len(),
            out@.len() == i,
            forall|k: int| 0 <= k < i ==> (#[trigger] out@[k])@ == specs@[k].name@,
        decreases specs@.len() - i,
    {
        out.push(specs[i].name.clone());
        i += 1;
    }
    proof {
        assert(texts(out@) =~= spec_names(specs@));
    }
    out
}

/// Where the first declared process of this name stands, or the list's length.
pub open spec fn spec_at(specs: Seq<ManagedSpec>, name: Seq<char>) -> int
    decreases specs.len(),
{
    if specs.len() == 0 || specs[0].name@ == name {
        0
    } else {
        1 + spec_at(specs.skip(1), name)
    }
}

fn find_spec(specs: &Vec<ManagedSpec>, name: &str) -> (r: Option<usize>)
    ensures
        match r {
            Some(i) => i == spec_at(specs@, name@) && i < specs@.len() && specs@[i as int].name@
                == name@,
            None => spec_at(specs@, name@) == specs@.len(),
        },
{
    let mut i: usize = 0;
    proof {
        assert(specs@.skip(0) =~= specs@);
    }
    while i < specs.len()
        invariant
            i <= specs@.len(),
            spec_at(specs@, name@) == i + spec_at(specs@.skip(i as int), name@),
        decreases specs@.len() - i,
    {
        if same(specs[i].name.as_str(), name) {
            return Some(i);
        }
        proof {
            assert(specs@.skip(i as int).skip(1) =~= specs@.skip(i + 1));
        }
        i += 1;
    }
    None
}

/// A declared process is found by its name, the first of that name.
pub proof fn a_declared_process_is_found_by_its_name(
    specs: Seq<ManagedSpec>,
    name: Seq<char>,
    i: int,
)
    requires
        0 <= i <= specs.len(),
        forall|k: int| 0 <= k < i ==> (#[trigger] specs[k]).name@ != name,
        i < specs.len() ==> specs[i].name@ == name,
    ensures
        spec_at(specs, name) == i,
    decreases specs.len(),
{
    if i > 0 {
        let rest = specs.skip(1);
        assert(specs[0].name@ != name);
        assert forall|k: int| 0 <= k < i - 1 implies (#[trigger] rest[k]).name@ != name by {
            assert(specs[k + 1].name@ != name);
        }
        a_declared_process_is_found_by_its_name(rest, name, i - 1);
    }
}

/// Whether a process of this name is still running.
pub open spec fn is_up(processes: Seq<Process>, name: Seq<char>) -> bool {
    exists|i: int|
        0 <= i < processes.len() && (#[trigger] processes[i]).name@ == name && (processes[i].pty
            matches Some(p) && p.alive)
}

fn up(processes: &Vec<Process>, name: &str) -> (r: bool)
    ensures
        r == is_up(processes@, name@),
{
    let mut i: usize = 0;
    while i < processes.len()
        invariant
            i <= processes@.len(),
            forall|k: int|
                0 <= k < i ==> !((#[trigger] processes@[k]).name@ == name@ && (processes@[k].pty
                    matches Some(p) && p.alive)),
        decreases processes@.len() - i,
    {
        let alive: bool = match processes[i].pty {
            Some(p) => p.alive,
            None => false,
        };
        if alive && same(processes[i].name.as_str(), name) {
            return true;
        }
        i += 1;
    }
    false
}

/// Why a session does not start a process in its own workspace, if it does not.
pub open spec fn process_refusal(
    list: Seq<Session>,
    keys: Keys,
    id: SessionId,
    name: Seq<char>,
    specs: Seq<ManagedSpec>,
    spaces: Seq<Workspace>,
) -> Option<Said> {
    if ask_key_refusal(list, keys, id) is Some {
        ask_key_refusal(list, keys, id)
    } else if !seated(list, id) {
        Some(unknown_session(id))
    } else {
        let workspace = list[seat(list, id)].workspace@;
        if spec_at(specs, name) >= specs.len() {
            Some(
                Said::Failed(
                    workspace + " declares no process called "@ + name + "; it has "@ + if specs.len()
                        == 0 {
                        "none at all"@
                    } else {
                        joined(spec_names(specs), ", "@)
                    },
                ),
            )
        } else if is_up(processes_in(spaces, workspace), name) {
            Some(Said::Failed(name + " is already running in "@ + workspace))
        } else {
            None
        }
    }
}

/// A session starts a process wherever its workspace declares one of that name and none of
/// that name runs there: one that ended is in nobody's way.
pub proof fn a_declared_process_is_started(
    list: Seq<Session>,
    keys: Keys,
    id: SessionId,
    name: Seq<char>,
    specs: Seq<ManagedSpec>,
    spaces: Seq<Workspace>,
    i: int,
    k: int,
)
    requires
        ask_key_refusal(list, keys, id) is None,
        0 <= i < list.len(),
        list[i].id == id,
        forall|j: int| 0 <= j < i ==> (#[trigger] list[j]).id != id,
        0 <= k <= specs.len(),
        forall|j: int| 0 <= j < k ==> (#[trigger] specs[j]).name@ != name,
        k < specs.len() ==> specs[k].name@ == name,
    ensures
        process_refusal(list, keys, id, name, specs, spaces) is None <==> k < specs.len() && forall|
            j: int,
        |
            0 <= j < processes_in(spaces, list[i].workspace@).len() && (#[trigger] processes_in(
                spaces,
                list[i].workspace@,
            )[j]).name@ == name ==> processes_in(spaces, list[i].workspace@)[j].pty is None
                || !processes_in(spaces, list[i].workspace@)[j].pty->Some_0.alive,
{
    lemma_seat(list, id, i);
    a_declared_process_is_found_by_its_name(specs, name, k);
}

/// One session starts a managed process in its own workspace: which of those that the
/// workspace declares. `specs` are those.
pub fn process_from_session(
    list: &Vec<Session>,
    keys: &Keys,
    id: SessionId,
    body: &ProcessBody,
    specs: &Vec<ManagedSpec>,
    spaces: &Vec<Workspace>,
) -> (r: Result<usize, ApiError>)
    ensures
        match process_refusal(list@, *keys, id, body.name@, specs@, spaces@) {
            Some(why) => r is Err && r->Err_0@ == why,
            None => r is Ok && r->Ok_0 == spec_at(specs@, body.name@),
        },
{
    match ask_token_ok(list, keys, id) {
        Err(e) => {
            return Err(e);
        },
        Ok(()) => {},
    }
    let i: usize = match locate(list, id) {
        Some(i) => i,
        None => {
            return Err(no_such_session(id));
        },
    };
    let workspace: &str = list[i].workspace.as_str();
    match find_spec(specs, body.name.as_str()) {
        None => {
            let known: String = if specs.len() == 0 {
                "none at all".to_owned()
            } else {
                join(&managed_names(specs), ", ")
            };
            let head: String = cat4(
                workspace,
                " declares no process called ",
                body.name.as_str(),
                "; it has ",
            );
            Err(refuse(cat2(head.as_str(), known.as_str())))
        },
        Some(k) => {
            let running: bool = match find_home(spaces, workspace) {
                Some(w) => up(&w.processes, body.name.as_str()),
                None => false,
            };
            if running {
                return Err(
                    refuse(cat3(body.name.as_str(), " is already running in ", workspace)),
                );
            }
            Ok(k)
        },
    }
}

/// Which declared process to restart, and the terminal to stop first.
pub fn restart_process(
    specs: &Vec<ManagedSpec>,
    spaces: &Vec<Workspace>,
    workspace: &str,
    name: &str,
) -> (r: Result<(usize, Option<Pty>), ApiError>)
    ensures
        if spec_at(specs@, name@) >= specs@.len() {
            r is Err && r->Err_0@ == Said::Failed(
                "no managed process "@ + name@ + " for "@ + workspace@,
            )
        } else {
            r is Ok && r->Ok_0.0 == spec_at(specs@, name@) && r->Ok_0.1 == first_pty(
                processes_in(spaces@, workspace@),
                name@,
            )
        },
{
    match find_spec(specs, name) {
        None => Err(refuse(cat4("no managed process ", name, " for ", workspace))),
        Some(k) => Ok(
            (
                k,
                match find_home(spaces, workspace) {
                    Some(w) => find_pty(&w.processes, name),
                    None => None,
                },
            ),
        ),
    }
}

/// The terminal of the first process of this name, if it has one.
pub open spec fn first_pty(processes: Seq<Process>, name: Seq<char>) -> Option<Pty>
    decreases processes.len(),
{
    if processes.len() == 0 {
        None
    } else if processes[0].name@ == name {
        processes[0].pty
    } else {
        first_pty(processes.skip(1), name)
    }
}

fn find_pty(processes: &Vec<Process>, name: &str) -> (r: Option<Pty>)
    ensures
        r == first_pty(processes@, name@),
{
    let mut i: usize = 0;
    proof {
        assert(processes@.skip(0) =~= processes@);
    }
    while i < processes.len()
        invariant
            i <= processes@.len(),
            first_pty(processes@, name@) == first_pty(processes@.skip(i as int), name@),
        decreases processes@.len() - i,
    {
        if same(processes[i].name.as_str(), name) {
            return processes[i].pty;
        }
        proof {
            assert(processes@.skip(i as int).skip(1) =~= processes@.skip(i + 1));
        }
        i += 1;
    }
    None
}

/// A process that is restarted is stopped in its own terminal: that of the first of its name.
pub proof fn a_process_is_stopped_in_its_own_terminal(
    processes: Seq<Process>,
    name: Seq<char>,
    i: int,
)
    requires
        0 <= i <= processes.len(),
        forall|k: int| 0 <= k < i ==> (#[trigger] processes[k]).name@ != name,
        i < processes.len() ==> processes[i].name@ == name,
    ensures
        first_pty(processes, name) == if i < processes.len() {
            processes[i].pty
        } else {
            None
        },
    decreases processes.len(),
{
    if i > 0 {
        let rest = processes.skip(1);
        assert(processes[0].name@ != name);
        assert forall|k: int| 0 <= k < i - 1 implies (#[trigger] rest[k]).name@ != name by {
            assert(processes[k + 1].name@ != name);
        }
        a_process_is_stopped_in_its_own_terminal(rest, name, i - 1);
    }
}

/// A process to stop: where it is, what it is called, and its terminal.
pub struct Closing {
    pub workspace: String,
    pub name: String,
    pub pty: Pty,
}

/// The first process of a list under an id.
pub open spec fn process_in(list: Seq<Process>, id: Seq<char>) -> Option<Process>
    decreases list.len(),
{
    if list.len() == 0 {
        None
    } else if list[0].id@ == id {
        Some(list[0])
    } else {
        process_in(list.skip(1), id)
    }
}

/// The first workspace with a process under an id, and that process.
pub open spec fn owner_of(spaces: Seq<Workspace>, id: Seq<char>) -> Option<(Workspace, Process)>
    decreases spaces.len(),
{
    if spaces.len() == 0 {
        None
    } else if process_in(spaces[0].processes@, id) is Some {
        Some((spaces[0], process_in(spaces[0].processes@, id)->Some_0))
    } else {
        owner_of(spaces.skip(1), id)
    }
}

fn find_process<'a>(list: &'a Vec<Process>, id: &str) -> (r: Option<&'a Process>)
    ensures
        process_in(list@, id@) == match r {
            Some(p) => Some(*p),
            None => None,
        },
{
    let mut i: usize = 0;
    proof {
        assert(list@.skip(0) =~= list@);
    }
    while i < list.len()
        invariant
            i <= list@.len(),
            process_in(list@, id@) == process_in(list@.skip(i as int), id@),
        decreases list@.len() - i,
    {
        if same(list[i].id.as_str(), id) {
            return Some(&list[i]);
        }
        proof {
            assert(list@.skip(i as int).skip(1) =~= list@.skip(i + 1));
        }
        i += 1;
    }
    None
}

/// A process is found by its id in the first workspace that lists it, the first there.
pub proof fn a_listed_process_has_an_owner(spaces: Seq<Workspace>, id: Seq<char>, i: int, k: int)
    requires
        0 <= i < spaces.len(),
        0 <= k < spaces[i].processes@.len(),
        spaces[i].processes@[k].id@ == id,
        forall|j: int| 0 <= j < k ==> (#[trigger] spaces[i].processes@[j]).id@ != id,
        forall|h: int, j: int|
            0 <= h < i && 0 <= j < spaces[h].processes@.len() ==> (
            #[trigger] spaces[h].processes@[j]).id@ != id,
    ensures
        owner_of(spaces, id) == Some((spaces[i], spaces[i].processes@[k])),
    decreases spaces.len(),
{
    if i == 0 {
        lemma_process_in(spaces[0].processes@, id, k);
    } else {
        let here = spaces[0].processes@;
        assert forall|j: int| 0 <= j < here.len() implies (#[trigger] here[j]).id@ != id by {
            assert(spaces[0].processes@[j].id@ != id);
        }
        lemma_process_in(here, id, here.len() as int);
        let rest = spaces.skip(1);
        assert(rest[i - 1] == spaces[i]);
        assert forall|h: int, j: int| 0 <= h < i - 1 && 0 <= j < rest[h].processes@.len() implies (
        #[trigger] rest[h].processes@[j]).id@ != id by {
            assert(spaces[h + 1].processes@[j].id@ != id);
        }
        a_listed_process_has_an_owner(rest, id, i - 1, k);
    }
}

proof fn lemma_process_in(list: Seq<Process>, id: Seq<char>, i: int)
    requires
        0 <= i <= list.len(),
        forall|k: int| 0 <= k < i ==> (#[trigger] list[k]).id@ != id,
        i < list.len() ==> list[i].id@ == id,
    ensures
        process_in(list, id) == if i < list.len() {
            Some(list[i])
        } else {
            None
        },
    decreases list.len(),
{
    if i > 0 {
        let rest = list.skip(1);
        assert(list[0].id@ != id);
        assert forall|k: int| 0 <= k < i - 1 implies (#[trigger] rest[k]).id@ != id by {
            assert(list[k + 1].id@ != id);
        }
        lemma_process_in(rest, id, i - 1);
    }
}

/// What has to be stopped before a process of this owner is closed.
pub open spec fn closing(owner: Option<(Workspace, Process)>) -> Option<Closing> {
    match owner {
        Some((w, p)) => match p.pty {
            Some(pty) => Some(Closing { workspace: w.id, name: p.name, pty }),
            None => None,
        },
        None => None,
    }
}

/// What still has a terminal is stopped before it is closed, by its own name, in its own
/// workspace and in its own terminal; there is nothing to stop without one.
pub proof fn what_has_a_terminal_is_stopped(w: Workspace, p: Process)
    ensures
        closing(None) is None,
        closing(Some((w, p))) is Some <==> p.pty is Some,
        p.pty is Some ==> closing(Some((w, p)))->Some_0.workspace == w.id && closing(
            Some((w, p)),
        )->Some_0.name == p.name && closing(Some((w, p)))->Some_0.pty == p.pty->Some_0,
{
}

/// What has to be stopped before a process is closed: its first owner's, if it still has
/// a terminal.
pub fn close_process(spaces: &Vec<Workspace>, id: &str) -> (r: Option<Closing>)
    ensures
        r == closing(owner_of(spaces@, id@)),
{
    let mut i: usize = 0;
    proof {
        assert(spaces@.skip(0) =~= spaces@);
    }
    while i < spaces.len()
        invariant
            i <= spaces@.len(),
            owner_of(spaces@, id@) == owner_of(spaces@.skip(i as int), id@),
        decreases spaces@.len() - i,
    {
        match find_process(&spaces[i].processes, id) {
            Some(p) => {
                return match p.pty {
                    Some(pty) => Some(
                        Closing { workspace: spaces[i].id.clone(), name: p.name.clone(), pty },
                    ),
                    None => None,
                };
            },
            None => {},
        }
        proof {
            assert(spaces@.skip(i as int).skip(1) =~= spaces@.skip(i + 1));
        }
        i += 1;
    }
    None
}

/// A workspace without the processes under an id.
pub open spec fn is_without(before: Workspace, id: Seq<char>, after: Workspace) -> bool {
    &&& after == (Workspace { processes: after.processes, ..before })
    &&& after.processes@ == others(before.processes@, id)
}

/// Take a process that was stopped off every workspace that lists it.
pub fn process_closed(spaces: &mut Vec<Workspace>, id: &str)
    ensures
        final(spaces)@.len() == old(spaces)@.len(),
        forall|i: int|
            0 <= i < old(spaces)@.len() ==> is_without(
                old(spaces)@[i],
                id@,
                #[trigger] final(spaces)@[i],
            ),
{
    let n: usize = spaces.len();
    let mut i: usize = 0;
    while i < n
        invariant
            n == old(spaces)@.len(),
            spaces@.len() == n,
            i <= n,
            forall|k: int|
                0 <= k < i ==> is_without(old(spaces)@[k], id@, #[trigger] spaces@[k]),
            forall|k: int| i <= k < n ==> spaces@[k] == old(spaces)@[k],
        decreases n - i,
    {
        let w: &mut Workspace = &mut spaces[i];
        let _ = take_out(&mut w.processes, id);
        i += 1;
    }
}

/// A process that was closed is listed nowhere, and closing it again finds nothing.
pub proof fn a_closed_process_is_gone(
    before: Seq<Workspace>,
    id: Seq<char>,
    after: Seq<Workspace>,
)
    requires
        after.len() == before.len(),
        forall|i: int| 0 <= i < before.len() ==> is_without(before[i], id, #[trigger] after[i]),
    ensures
        owner_of(after, id) is None,
    decreases after.len(),
{
    if after.len() > 0 {
        lemma_others_have_no_such(before[0].processes@, id);
        assert(is_without(before[0], id, after[0]));
        assert forall|i: int| 0 <= i < before.skip(1).len() implies is_without(
            before.skip(1)[i],
            id,
            #[trigger] after.skip(1)[i],
        ) by {
            assert(is_without(before[i + 1], id, after[i + 1]));
        }
        a_closed_process_is_gone(before.skip(1), id, after.skip(1));
    }
}

proof fn lemma_others_have_no_such(list: Seq<Process>, id: Seq<char>)
    ensures
        process_in(others(list, id), id) is None,
    decreases list.len(),
{
    if list.len() > 0 {
        lemma_others_have_no_such(list.drop_last(), id);
        if list.last().id@ != id {
            lemma_process_in_push(others(list.drop_last(), id), id, list.last());
        }
    }
}

proof fn lemma_process_in_push(list: Seq<Process>, id: Seq<char>, p: Process)
    requires
        process_in(list, id) is None,
        p.id@ != id,
    ensures
        process_in(list.push(p), id) is None,
    decreases list.len(),
{
    if list.len() > 0 {
        lemma_process_in_push(list.skip(1), id, p);
        assert(list.push(p)[0] == list[0]);
        assert(list.push(p).skip(1) =~= list.skip(1).push(p));
    } else {
        assert(list.push(p).skip(1) =~= list);
    }
}

// ---------------------------------------------------------------------------
// Resuming, adopting, forking and restarting
// ---------------------------------------------------------------------------

/// Where the first conversation with this id stands, or the list's length.
pub open spec fn conversation_at(external: Seq<Conversation>, id: SessionId) -> int
    decreases external.len(),
{
    if external.len() == 0 || external[0].id == id {
        0
    } else {
        1 + conversation_at(external.skip(1), id)
    }
}

fn find_conversation(external: &Vec<Conversation>, id: SessionId) -> (r: Option<usize>)
    ensures
        match r {
            Some(i) => i == conversation_at(external@, id) && i < external@.len(),
            None => conversation_at(external@, id) == external@.len(),
        },
{
    let mut i: usize = 0;
    proof {
        assert(external@.skip(0) =~= external@);
    }
    while i < external.len()
        invariant
            i <= external@.len(),
            conversation_at(external@, id) == i + conversation_at(external@.skip(i as int), id),
        decreases external@.len() - i,
    {
        if external[i].id == id {
            return Some(i);
        }
        proof {
            assert(external@.skip(i as int).skip(1) =~= external@.skip(i + 1));
        }
        i += 1;
    }
    None
}

/// A conversation is found by its id, the first that has it.
pub proof fn a_conversation_is_found_by_its_id(
    external: Seq<Conversation>,
    id: SessionId,
    i: int,
)
    requires
        0 <= i <= external.len(),
        forall|k: int| 0 <= k < i ==> (#[trigger] external[k]).id != id,
        i < external.len() ==> external[i].id == id,
    ensures
        conversation_at(external, id) == i,
    decreases external.len(),
{
    if i > 0 {
        let rest = external.skip(1);
        assert(external[0].id != id);
        assert forall|k: int| 0 <= k < i - 1 implies (#[trigger] rest[k]).id != id by {
            assert(external[k + 1].id != id);
        }
        a_conversation_is_found_by_its_id(rest, id, i - 1);
    }
}

/// Why a conversation that the daemon did not start is not taken over, if it is not.
pub open spec fn adopt_refusal(
    list: Seq<Session>,
    external: Seq<Conversation>,
    id: SessionId,
    claimed: bool,
    recent: bool,
    force: bool,
    several_in_main: bool,
    live: Option<SessionId>,
) -> Option<Said> {
    let k = conversation_at(external, id);
    if !claimed {
        Some(Said::Busy("conversation "@ + short(id) + " is already being taken over"@))
    } else if seated(list, id) {
        Some(
            Said::Failed(
                "session "@ + short(id)
                    + " is one of this daemon's own; resume it from its row"@,
            ),
        )
    } else if k >= external.len() {
        Some(
            Said::Failed(
                "no conversation "@ + short(id) + " in this checkout's transcripts"@,
            ),
        )
    } else if !force && recent {
        Some(
            Said::Failed(
                "conversation "@ + short(id)
                    + " was written to moments ago and may still be open in a terminal; close it first, or adopt it anyway"@,
            ),
        )
    } else {
        occupied_refusal(list, external[k].workspace@, several_in_main, live)
    }
}

/// A conversation that was found is taken over wherever nobody else is at it, the daemon has
/// no record of it, it has been quiet or you insist, and its workspace has room. Somebody else
/// at it is the only thing worth waiting for.
pub proof fn a_found_conversation_is_taken_over(
    list: Seq<Session>,
    external: Seq<Conversation>,
    id: SessionId,
    claimed: bool,
    recent: bool,
    force: bool,
    several_in_main: bool,
    live: Option<SessionId>,
    i: int,
)
    requires
        0 <= i < external.len(),
        external[i].id == id,
        forall|k: int| 0 <= k < i ==> (#[trigger] external[k]).id != id,
    ensures
        adopt_refusal(
            list,
            external,
            id,
            claimed,
            recent,
            force,
            several_in_main,
            live,
        ) is None <==> claimed && !seated(list, id) && (force || !recent) && (live is None || (
        several_in_main && external[i].workspace@ == "main"@)),
        adopt_refusal(
            list,
            external,
            id,
            claimed,
            recent,
            force,
            several_in_main,
            live,
        ) matches Some(Said::Busy(_)) ==> !claimed,
{
    a_conversation_is_found_by_its_id(external, id, i);
}

/// Which conversation that the daemon did not start is taken over, by its place among
/// those that were found: `claimed` is whether nobody else is at it, `recent` whether it
/// was written to moments ago, and `live` the first live session in its workspace.
pub fn resume_external(
    list: &Vec<Session>,
    external: &Vec<Conversation>,
    id: SessionId,
    claimed: bool,
    recent: bool,
    body: Option<&AdoptOutside>,
    several_in_main: bool,
    live: Option<SessionId>,
) -> (r: Result<usize, ApiError>)
    ensures
        match adopt_refusal(
            list@,
            external@,
            id,
            claimed,
            recent,
            body is Some && body->Some_0.force,
            several_in_main,
            live,
        ) {
            Some(why) => r is Err && r->Err_0@ == why,
            None => r is Ok && r->Ok_0 == conversation_at(external@, id) && r->Ok_0
                < external@.len(),
        },
{
    let force: bool = match body {
        Some(b) => b.force,
        None => false,
    };
    let eight: String = short_id(&id);
    if !claimed {
        return Err(
            refuse_busy(
                cat3("conversation ", eight.as_str(), " is already being taken over"),
            ),
        );
    }
    if locate(list, id).is_some() {
        return Err(
            refuse(
                cat3(
                    "session ",
                    eight.as_str(),
                    " is one of this daemon's own; resume it from its row",
                ),
            ),
        );
    }
    let k: usize = match find_conversation(external, id) {
        Some(k) => k,
        None => {
            return Err(
                refuse(
                    cat3(
                        "no conversation ",
                        eight.as_str(),
                        " in this checkout's transcripts",
                    ),
                ),
            );
        },
    };
    if !force && recent {
        return Err(
            refuse(
                cat3(
                    "conversation ",
                    eight.as_str(),
                    " was written to moments ago and may still be open in a terminal; close it first, or adopt it anyway",
                ),
            ),
        );
    }
    match refuse_if_occupied(list, external[k].workspace.as_str(), several_in_main, live) {
        Ok(()) => Ok(k),
        Err(e) => Err(e),
    }
}

/// The conversations of a list but for those with an id.
pub open spec fn other_conversations(external: Seq<Conversation>, id: SessionId) -> Seq<
    Conversation,
>
    decreases external.len(),
{
    if external.len() == 0 {
        external
    } else if external.last().id == id {
        other_conversations(external.drop_last(), id)
    } else {
        other_conversations(external.drop_last(), id).push(external.last())
    }
}

/// A conversation that was taken over leaves the list, and everybody else stays where they
/// were.
pub proof fn only_what_was_taken_over_leaves_the_list(
    external: Seq<Conversation>,
    id: SessionId,
    c: Conversation,
)
    ensures
        other_conversations(Seq::empty(), id).len() == 0,
        other_conversations(external.push(c), id) == if c.id == id {
            other_conversations(external, id)
        } else {
            other_conversations(external, id).push(c)
        },
{
    assert(external.push(c).drop_last() =~= external);
}

/// Take a conversation off the list once it has a record, so that it is not listed twice.
pub fn adopted(external: &mut Vec<Conversation>, id: SessionId)
    ensures
        final(external)@ == other_conversations(old(external)@, id),
{
    let ghost all = external@;
    let ghost mut gone: int = 0;
    let mut i: usize = 0;
    proof {
        assert(all.take(0) =~= Seq::<Conversation>::empty());
        assert(other_conversations(all.take(0), id) + all.skip(0) =~= all);
    }
    while i < external.len()
        invariant
            0 <= gone,
            i + gone <= all.len(),
            external@ == other_conversations(all.take(i + gone), id) + all.skip(i + gone),
            other_conversations(all.take(i + gone), id).len() == i,
        decreases external@.len() - i,
    {
        let ghost m = i + gone;
        proof {
            assert(all.take(m + 1).drop_last() =~= all.take(m));
            assert(all.take(m + 1).last() == all[m]);
            assert(external@[i as int] == all[m]);
        }
        if external[i].id == id {
            let _ = external.remove(i);
            proof {
                assert(external@ =~= other_conversations(all.take(m + 1), id) + all.skip(m + 1));
                gone = gone + 1;
            }
        } else {
            proof {
                assert(external@ =~= other_conversations(all.take(m + 1), id) + all.skip(m + 1));
            }
            i += 1;
        }
    }
    proof {
        assert(all.take(all.len() as int) =~= all);
        assert(external@ =~= other_conversations(all, id));
    }
}

/// What is said of a conversation that comes back on another branch than it left.
pub open spec fn drift(
    was: Option<Seq<char>>,
    now: Option<Seq<char>>,
    workspace: Seq<char>,
) -> Option<Seq<char>> {
    match (was, now) {
        (Some(a), Some(b)) => if a != b {
            Some(
                "this conversation was working on "@ + a + "; "@ + workspace + " is on "@ + b
                    + " now"@,
            )
        } else {
            None
        },
        _ => None,
    }
}

/// A drift is told wherever both branches are known and are not the same: first the one the
/// conversation was on, last the one its workspace is on.
pub proof fn a_drift_is_told(was: Seq<char>, now: Seq<char>, workspace: Seq<char>)
    ensures
        drift(Some(was), Some(now), workspace) is Some <==> was != now,
        drift(None, Some(now), workspace) is None,
        drift(Some(was), None, workspace) is None,
        was != now ==> ("this conversation was working on "@ + was).is_prefix_of(
            drift(Some(was), Some(now), workspace)->Some_0,
        ) && (workspace + " is on "@ + now + " now"@).is_suffix_of(
            drift(Some(was), Some(now), workspace)->Some_0,
        ),
{
    if was != now {
        let said = drift(Some(was), Some(now), workspace)->Some_0;
        let head = "this conversation was working on "@ + was;
        let tail = workspace + " is on "@ + now + " now"@;
        assert(said.subrange(0, head.len() as int) =~= head);
        assert(said.subrange(said.len() - tail.len(), said.len() as int) =~= tail);
    }
}

/// What is said of a conversation that comes back on another branch than it left.
pub fn drift_warning(was: Option<&str>, now: Option<&str>, workspace: &str) -> (r: Option<String>)
    ensures
        opt_text(r) == drift(opt_str(was), opt_str(now), workspace@),
{
    match (was, now) {
        (Some(a), Some(b)) => {
            if same(a, b) {
                return None;
            }
            let head: String = cat5(
                "this conversation was working on ",
                a,
                "; ",
                workspace,
                " is on ",
            );
            Some(cat3(head.as_str(), b, " now"))
        },
        _ => None,
    }
}

/// Why a conversation is not branched off, if it is not.
pub open spec fn fork_refusal(list: Seq<Session>, id: SessionId) -> Option<Said> {
    if !seated(list, id) {
        Some(unknown_session(id))
    } else if !list[seat(list, id)].had_a_turn {
        Some(
            Said::Failed(
                "session "@ + short(id) + " has no conversation yet — nothing to fork"@,
            ),
        )
    } else {
        None
    }
}

/// A conversation can be branched off exactly where something was said in it, whatever its
/// session is at.
pub proof fn what_had_a_turn_can_be_forked(list: Seq<Session>, id: SessionId, i: int)
    requires
        0 <= i < list.len(),
        list[i].id == id,
        forall|k: int| 0 <= k < i ==> (#[trigger] list[k]).id != id,
    ensures
        fork_refusal(list, id) is None <==> list[i].had_a_turn,
{
    lemma_seat(list, id, i);
}

/// Whether a conversation can be branched off: refused before a worktree is cut for one
/// that never had a turn.
pub fn fork_session(list: &Vec<Session>, id: SessionId) -> (r: Result<(), ApiError>)
    ensures
        match fork_refusal(list@, id) {
            Some(why) => r is Err && r->Err_0@ == why,
            None => r is Ok,
        },
{
    match locate(list, id) {
        None => Err(no_such_session(id)),
        Some(i) => {
            if !list[i].had_a_turn {
                let eight: String = short_id(&id);
                return Err(
                    refuse(
                        cat3(
                            "session ",
                            eight.as_str(),
                            " has no conversation yet — nothing to fork",
                        ),
                    ),
                );
            }
            Ok(())
        },
    }
}

/// Why a session is not resumed, if it is not: `live` is the first live session in its
/// workspace.
pub open spec fn revive_refusal(
    list: Seq<Session>,
    id: SessionId,
    several_in_main: bool,
    live: Option<SessionId>,
) -> Option<Said> {
    if !seated(list, id) {
        Some(unknown_session(id))
    } else if list[seat(list, id)].recovery == Some(ArchiveState::TranscriptOnly) {
        Some(
            Said::Failed(
                "session "@ + hyphenated(id)
                    + " is transcript-only: the branch is gone and the commit is unreachable"@,
            ),
        )
    } else {
        occupied_refusal(list, list[seat(list, id)].workspace@, several_in_main, live)
    }
}

/// A session can be resumed wherever its work can still be reached and its workspace has room.
pub proof fn what_can_be_reached_can_be_resumed(
    list: Seq<Session>,
    id: SessionId,
    several_in_main: bool,
    live: Option<SessionId>,
    i: int,
)
    requires
        0 <= i < list.len(),
        list[i].id == id,
        forall|k: int| 0 <= k < i ==> (#[trigger] list[k]).id != id,
    ensures
        revive_refusal(list, id, several_in_main, live) is None <==> !(list[i].recovery
            matches Some(a) && a is TranscriptOnly) && (live is None || (several_in_main
            && list[i].workspace@ == "main"@)),
{
    lemma_seat(list, id, i);
}

/// The steps of a resume.
#[derive(Debug, Clone, Copy, PartialEq, Eq, Structural)]
pub enum ReviveStep {
    /// The tree stands: see whether it is still on the conversation's branch, which stops
    /// nothing.
    LookForDrift,
    /// The tree was torn down: build it again from the recovery record, where it was.
    Rebuild,
    /// Start the agent under the same id.
    Relaunch,
}

/// What a session is resumed with.
pub struct Revival {
    pub workspace: String,
    /// Where its tree is, or is built again.
    pub cwd: String,
    /// What a tree that was torn down is built again from.
    pub recovery: Option<ArchiveState>,
    /// The run it is, if it is one: what it reads its PR and its credential by.
    pub pass: Option<Pass>,
    pub resume: Source,
    /// What is done about its tree before it is started.
    pub first: ReviveStep,
}

/// What follows a step of a resume that went well or did not. `standing` is whether the
/// tree is still there.
pub open spec fn revive_after(last: Option<ReviveStep>, ok: bool, standing: bool) -> Option<
    ReviveStep,
> {
    match last {
        None => if standing {
            Some(ReviveStep::LookForDrift)
        } else {
            Some(ReviveStep::Rebuild)
        },
        Some(ReviveStep::LookForDrift) => Some(ReviveStep::Relaunch),
        Some(ReviveStep::Rebuild) => if ok {
            Some(ReviveStep::Relaunch)
        } else {
            None
        },
        Some(ReviveStep::Relaunch) => None,
    }
}

/// The next step of a resume, after `last` went well or did not.
pub fn revive_step(last: Option<ReviveStep>, ok: bool, standing: bool) -> (r: Option<ReviveStep>)
    ensures
        r == revive_after(last, ok, standing),
{
    match last {
        None => if standing {
            Some(ReviveStep::LookForDrift)
        } else {
            Some(ReviveStep::Rebuild)
        },
        Some(ReviveStep::LookForDrift) => Some(ReviveStep::Relaunch),
        Some(ReviveStep::Rebuild) => if ok {
            Some(ReviveStep::Relaunch)
        } else {
            None
        },
        Some(ReviveStep::Relaunch) => None,
    }
}

/// What a session is resumed with.
pub open spec fn revived(s: Session, id: SessionId, standing: bool) -> Revival {
    Revival {
        workspace: s.workspace,
        cwd: s.cwd,
        recovery: s.recovery,
        pass: s.pass,
        resume: Source::Resume(id),
        first: if standing {
            ReviveStep::LookForDrift
        } else {
            ReviveStep::Rebuild
        },
    }
}

/// A session is resumed as itself: its conversation, in its workspace and its folder, as the
/// run it was; and what is done first about its tree is the first step of a resume.
pub proof fn a_session_is_resumed_as_itself(s: Session, standing: bool)
    ensures
        revived(s, s.id, standing).resume == Source::Resume(s.id),
        revived(s, s.id, standing).workspace@ == s.workspace@,
        revived(s, s.id, standing).cwd@ == s.cwd@,
        revived(s, s.id, standing).recovery == s.recovery,
        revived(s, s.id, standing).pass == s.pass,
        revive_after(None, false, standing) == Some(revived(s, s.id, standing).first),
        revived(s, s.id, standing).first is LookForDrift <==> standing,
{
}

/// What a session is resumed with, if it may be, in its own workspace: its record's
/// workspace and pass, under its own id, in a tree that is looked at where it stands and
/// built again where it does not. `standing` is whether the record's folder is there.
pub fn revive(
    list: &Vec<Session>,
    id: SessionId,
    several_in_main: bool,
    live: Option<SessionId>,
    standing: bool,
) -> (r: Result<Revival, ApiError>)
    ensures
        match revive_refusal(list@, id, several_in_main, live) {
            Some(why) => r is Err && r->Err_0@ == why,
            None => {
                r == Ok::<Revival, ApiError>(revived(list@[seat(list@, id)], id, standing))
            },
        },
{
    let i: usize = match locate(list, id) {
        Some(i) => i,
        None => {
            return Err(no_such_session(id));
        },
    };
    let s: &Session = &list[i];
    if matches!(s.recovery, Some(ArchiveState::TranscriptOnly)) {
        let text: String = session_text(id);
        return Err(
            refuse(
                cat3(
                    "session ",
                    text.as_str(),
                    " is transcript-only: the branch is gone and the commit is unreachable",
                ),
            ),
        );
    }
    match refuse_if_occupied(list, s.workspace.as_str(), several_in_main, live) {
        Err(e) => {
            return Err(e);
        },
        Ok(()) => {},
    }
    Ok(
        Revival {
            workspace: s.workspace.clone(),
            cwd: s.cwd.clone(),
            recovery: match &s.recovery {
                Some(r) => Some(r.clone()),
                None => None,
            },
            pass: match &s.pass {
                Some(p) => Some(p.clone()),
                None => None,
            },
            resume: Source::Resume(id),
            first: if standing {
                ReviveStep::LookForDrift
            } else {
                ReviveStep::Rebuild
            },
        },
    )
}

/// What a resume is answered whose tree could not be built again.
pub fn revive_failed(id: SessionId, why: &str) -> (r: ApiError)
    ensures
        r@ == Said::Failed("session "@ + hyphenated(id) + ": "@ + why@),
{
    let text: String = session_text(id);
    refuse(cat4("session ", text.as_str(), ": ", why))
}

/// What is said beside a resume that went through.
pub open spec fn warned(drift: Result<Option<String>, String>) -> Option<String> {
    match drift {
        Ok(w) => w,
        Err(_) => None,
    }
}

/// A resume passes on the warning it came by, and a look that failed warns of nothing.
pub proof fn a_resume_passes_its_warning_on(w: Option<String>, e: String)
    ensures
        warned(Ok(w)) == w,
        warned(Err(e)) is None,
{
}

/// What is said beside a resume that went through. A tree that stands and could not be
/// read says nothing; one that was built again says what its rebuild said.
pub fn revive_warning(drift: Result<Option<String>, String>) -> (r: Option<String>)
    ensures
        r == warned(drift),
{
    match drift {
        Ok(w) => w,
        Err(_) => None,
    }
}

/// The steps of a resume so far with their outcomes, in order.
pub open spec fn is_revival(steps: Seq<(ReviveStep, bool)>, standing: bool) -> bool {
    forall|i: int|
        0 <= i < steps.len() ==> Some((#[trigger] steps[i]).0) == revive_after(
            if i == 0 {
                None
            } else {
                Some(steps[i - 1].0)
            },
            i > 0 && steps[i - 1].1,
            standing,
        )
}

/// No agent is started where its tree is gone: it was built again first, and that went
/// well. A tree that stands is looked at and never built over. And nothing follows a
/// rebuild that failed.
pub proof fn a_tree_is_back_before_its_agent(
    steps: Seq<(ReviveStep, bool)>,
    standing: bool,
    i: int,
)
    requires
        is_revival(steps, standing),
        0 <= i < steps.len(),
    ensures
        steps[i].0 == ReviveStep::Relaunch ==> i == 1 && if standing {
            steps[0].0 == ReviveStep::LookForDrift
        } else {
            steps[0] == (ReviveStep::Rebuild, true)
        },
        steps[i].0 == ReviveStep::Rebuild ==> i == 0 && !standing,
        steps[i] == (ReviveStep::Rebuild, false) ==> steps.len() == 1,
{
    assert(Some(steps[0].0) == revive_after(None, false, standing));
    if i > 0 {
        assert(Some(steps[i].0) == revive_after(Some(steps[i - 1].0), steps[i - 1].1, standing));
    }
    if i > 1 {
        assert(Some(steps[i - 1].0) == revive_after(
            Some(steps[i - 2].0),
            steps[i - 2].1,
            standing,
        ));
    }
    if i + 1 < steps.len() {
        assert(Some(steps[i + 1].0) == revive_after(Some(steps[i].0), steps[i].1, standing));
    }
    if steps.len() > 1 {
        assert(Some(steps[1].0) == revive_after(Some(steps[0].0), steps[0].1, standing));
    }
}

/// Whether a resume has nothing left to do.
pub open spec fn is_revival_over(steps: Seq<(ReviveStep, bool)>, standing: bool) -> bool {
    &&& is_revival(steps, standing)
    &&& steps.len() > 0
    &&& revive_after(Some(steps.last().0), steps.last().1, standing) is None
}

/// A resume ends with its agent started, unless the tree had to be built again and could not
/// be: a look that failed stops nothing.
pub proof fn a_resume_goes_through(steps: Seq<(ReviveStep, bool)>, standing: bool)
    requires
        is_revival_over(steps, standing),
    ensures
        steps.last().0 is Relaunch || (!standing && steps.len() == 1 && steps[0].0 is Rebuild
            && !steps[0].1),
        standing ==> steps.last().0 is Relaunch,
{
    let n = steps.len() as int;
    assert(Some(steps[0].0) == revive_after(None, false, standing));
    assert(Some(steps[n - 1].0) == revive_after(
        if n == 1 {
            None
        } else {
            Some(steps[n - 2].0)
        },
        n > 1 && steps[n - 2].1,
        standing,
    ));
    a_tree_is_back_before_its_agent(steps, standing, n - 1);
}

/// What a restart route was asked for.
#[derive(Debug, Clone, Copy, PartialEq, Eq, Structural)]
pub enum RestartRoute {
    Cancel(SessionId),
    Queue(Which),
}

/// What a restart of one session asks for.
pub open spec fn restart_of(id: SessionId, body: Option<RestartAsk>) -> RestartRoute {
    if body is Some && body->Some_0.cancel {
        RestartRoute::Cancel(id)
    } else {
        RestartRoute::Queue(Which::One(id))
    }
}

/// What a restart of all sessions asks for.
pub open spec fn restart_of_all(body: Option<RestartAll>) -> RestartRoute {
    RestartRoute::Queue(
        if body is Some && body->Some_0.stale {
            Which::Stale
        } else {
            Which::All
        },
    )
}

/// A row's restart is about that row alone: queued unless it asks to be taken out. All are
/// restarted where nothing is said, and only those left behind where that is asked.
pub proof fn a_restart_is_for_whom_it_was_asked(id: SessionId, one: RestartAsk, all: RestartAll)
    ensures
        restart_of(id, None) == RestartRoute::Queue(Which::One(id)),
        restart_of(id, Some(one)) == RestartRoute::Cancel(id) <==> one.cancel,
        restart_of(id, Some(one)) == RestartRoute::Queue(Which::One(id)) <==> !one.cancel,
        restart_of_all(None) == RestartRoute::Queue(Which::All),
        restart_of_all(Some(all)) == RestartRoute::Queue(Which::Stale) <==> all.stale,
        restart_of_all(Some(all)) == RestartRoute::Queue(Which::All) <==> !all.stale,
{
}

/// What a restart of one session asks for: the ordinary answer where nothing is said.
pub fn restart_session(id: SessionId, body: Option<&RestartAsk>) -> (r: RestartRoute)
    ensures
        r == restart_of(
            id,
            match body {
                Some(b) => Some(*b),
                None => None,
            },
        ),
{
    match body {
        Some(b) => if b.cancel {
            RestartRoute::Cancel(id)
        } else {
            RestartRoute::Queue(Which::One(id))
        },
        None => RestartRoute::Queue(Which::One(id)),
    }
}

/// What a restart of all sessions asks for.
pub fn restart_sessions(body: Option<&RestartAll>) -> (r: RestartRoute)
    ensures
        r == restart_of_all(
            match body {
                Some(b) => Some(*b),
                None => None,
            },
        ),
{
    match body {
        Some(b) => if b.stale {
            RestartRoute::Queue(Which::Stale)
        } else {
            RestartRoute::Queue(Which::All)
        },
        None => RestartRoute::Queue(Which::All),
    }
}

/// A row that is not there is missed, a conversation that somebody else is at is waited for,
/// and everything else that is asked of a row and refused is refused for good.
pub proof fn a_row_is_refused_by_kind(
    list: Seq<Session>,
    keys: Keys,
    id: SessionId,
    child: SessionId,
    spawn: SpawnBody,
    known: Seq<Seq<char>>,
    name: Seq<char>,
    specs: Seq<ManagedSpec>,
    spaces: Seq<Workspace>,
    several: bool,
    live: Option<SessionId>,
)
    ensures
        occupied_refusal(list, name, several, live) matches Some(w) ==> w.status() == 400,
        rewind_refusal(list, id) matches Some(w) ==> (w.status() == 404 <==> !seated(list, id)) && (
        w.status() == 400 <==> seated(list, id)),
        fork_refusal(list, id) matches Some(w) ==> (w.status() == 404 <==> !seated(list, id)) && (
        w.status() == 400 <==> seated(list, id)),
        revive_refusal(list, id, several, live) matches Some(w) ==> (w.status() == 404 <==> !seated(
            list,
            id,
        )) && (w.status() == 400 <==> seated(list, id)),
        ask_key_refusal(list, keys, id) is None ==> {
            &&& discard_refusal(list, keys, id, child) matches Some(w) ==> (w.status() == 404
                <==> !seated(list, child)) && (w.status() == 400 <==> seated(list, child))
            &&& spawn_refusal(list, keys, id, spawn, known) matches Some(w) ==> (w.status() == 404
                <==> !seated(list, id)) && (w.status() == 400 <==> seated(list, id))
            &&& process_refusal(list, keys, id, name, specs, spaces) matches Some(w) ==> (w.status()
                == 404 <==> !seated(list, id)) && (w.status() == 400 <==> seated(list, id))
            &&& !seated(list, child) ==> discard_refusal(list, keys, id, child) is Some
            &&& !seated(list, id) ==> spawn_refusal(list, keys, id, spawn, known) is Some
            &&& !seated(list, id) ==> process_refusal(list, keys, id, name, specs, spaces) is Some
        },
        ask_key_refusal(list, keys, id) is Some ==> {
            &&& discard_refusal(list, keys, id, child) == ask_key_refusal(list, keys, id)
            &&& spawn_refusal(list, keys, id, spawn, known) == ask_key_refusal(list, keys, id)
            &&& process_refusal(list, keys, id, name, specs, spaces) == ask_key_refusal(
                list,
                keys,
                id,
            )
        },
        !seated(list, id) ==> rewind_refusal(list, id) is Some && fork_refusal(list, id) is Some
            && revive_refusal(list, id, several, live) is Some,
{
}

/// A conversation that somebody else is taking over is waited for, and any other refusal of it
/// is for good.
pub proof fn only_a_conversation_in_other_hands_is_waited_for(
    list: Seq<Session>,
    external: Seq<Conversation>,
    id: SessionId,
    claimed: bool,
    recent: bool,
    force: bool,
    several: bool,
    live: Option<SessionId>,
)
    ensures
        !claimed ==> adopt_refusal(
            list,
            external,
            id,
            claimed,
            recent,
            force,
            several,
            live,
        ) is Some,
        adopt_refusal(list, external, id, claimed, recent, force, several, live) matches Some(w) ==> (
        w.status() == 409 <==> !claimed) && (w.status() == 400 <==> claimed),
{
}

} // verus!
