//! The command a session is started with, and the record it starts from.

use vstd::prelude::*;
use vstd::string::*;
use crate::ids::{hyphenated, is_random_id, new_session_id, session_text, short, short_simple};
use crate::model::{is_fresh, Moment, Pass, Session, SessionId};
use crate::api::{refuse, ApiError, Said};
use crate::sessions::{lemma_seat, locate, seat, seated};
use crate::spawn::runs::{credential, pairs, post_token_for, run_env, Environment};
use crate::spawn::Source;
use crate::text::{
    cat2, cat3, copied, copies, decimal, holds_text, join, joined, listed, number, opt_str, opt_text,
    stands_at, texts,
};

verus! {

// ---------------------------------------------------------------------------
// What a resume or a fork carries over
// ---------------------------------------------------------------------------

/// What a resume or a fork carries over from the record it continues.
pub struct Carried {
    /// A fork starts a fresh direction, so it is never interrupted.
    pub interrupted: bool,
    pub had_a_turn: bool,
    /// The branch the conversation is about.
    pub branch: Option<String>,
    /// The undelivered arrival notice.
    pub notice: Option<String>,
    /// A name you typed. A fork earns its own.
    pub name: Option<String>,
    pub spawned_by: Option<SessionId>,
    pub spawn_cut_worktree: bool,
    pub forked_from: Option<SessionId>,
    /// When the conversation began. A fork begins now.
    pub created_at: Option<Moment>,
}

/// What travels from the previous record, if there is one.
pub open spec fn carried_from(prev: Option<Session>, fork: bool) -> Carried {
    match prev {
        None => Carried {
            interrupted: false,
            had_a_turn: false,
            branch: None,
            notice: None,
            name: None,
            spawned_by: None,
            spawn_cut_worktree: false,
            forked_from: None,
            created_at: None,
        },
        Some(p) => Carried {
            interrupted: !fork && p.interrupted,
            had_a_turn: p.had_a_turn,
            branch: p.branch,
            notice: p.arrival_notice,
            name: if fork {
                None
            } else {
                p.name
            },
            spawned_by: p.spawned_by,
            spawn_cut_worktree: p.spawn_cut_worktree,
            forked_from: if fork {
                None
            } else {
                p.forked_from
            },
            created_at: if fork {
                None
            } else {
                Some(p.created_at)
            },
        },
    }
}

/// A record with everything on it that travelled, but for the branch.
pub open spec fn continued(c: Carried, s: Session) -> Session {
    Session {
        interrupted: c.interrupted,
        had_a_turn: c.had_a_turn,
        arrival_notice: c.notice,
        name: c.name,
        created_at: match c.created_at {
            Some(began) => began,
            None => s.created_at,
        },
        spawned_by: c.spawned_by,
        spawn_cut_worktree: c.spawn_cut_worktree,
        forked_from: c.forked_from,
        ..s
    }
}

/// Everything that travels is put on the record, and the rest of it stays: a conversation that
/// began before goes on from when it began.
pub proof fn what_travels_is_put_on_the_record(c: Carried, s: Session)
    ensures
        continued(c, s).interrupted == c.interrupted,
        continued(c, s).had_a_turn == c.had_a_turn,
        continued(c, s).arrival_notice == c.notice,
        continued(c, s).name == c.name,
        continued(c, s).spawned_by == c.spawned_by,
        continued(c, s).spawn_cut_worktree == c.spawn_cut_worktree,
        continued(c, s).forked_from == c.forked_from,
        c.created_at is Some ==> continued(c, s).created_at == c.created_at->Some_0,
        c.created_at is None ==> continued(c, s).created_at == s.created_at,
        continued(c, s).branch == s.branch && continued(c, s).id == s.id && continued(
            c,
            s,
        ).workspace == s.workspace && continued(c, s).state == s.state,
{
}

impl Carried {
    pub fn from(prev: Option<&Session>, fork: bool) -> (r: Self)
        ensures
            r == carried_from(
                match prev {
                    Some(p) => Some(*p),
                    None => None,
                },
                fork,
            ),
    {
        match prev {
            None => Carried {
                interrupted: false,
                had_a_turn: false,
                branch: None,
                notice: None,
                name: None,
                spawned_by: None,
                spawn_cut_worktree: false,
                forked_from: None,
                created_at: None,
            },
            Some(p) => Carried {
                interrupted: !fork && p.interrupted,
                had_a_turn: p.had_a_turn,
                branch: copied(&p.branch),
                notice: copied(&p.arrival_notice),
                name: if fork {
                    None
                } else {
                    copied(&p.name)
                },
                spawned_by: p.spawned_by,
                spawn_cut_worktree: p.spawn_cut_worktree,
                forked_from: if fork {
                    None
                } else {
                    p.forked_from
                },
                created_at: if fork {
                    None
                } else {
                    Some(p.created_at)
                },
            },
        }
    }

    /// Put what travelled onto the record that continues the conversation. The branch
    /// is returned: only where there is none is the tree asked.
    pub fn apply(self, session: &mut Session) -> (r: Option<String>)
        ensures
            *final(session) == continued(self, *old(session)),
            r == self.branch,
    {
        session.interrupted = self.interrupted;
        session.had_a_turn = self.had_a_turn;
        session.arrival_notice = self.notice;
        session.name = self.name;
        match self.created_at {
            Some(began) => {
                session.created_at = began;
            },
            None => {},
        }
        session.spawned_by = self.spawned_by;
        session.spawn_cut_worktree = self.spawn_cut_worktree;
        session.forked_from = self.forked_from;
        self.branch
    }
}

// ---------------------------------------------------------------------------
// A session in an existing workspace
// ---------------------------------------------------------------------------

/// The id a session runs under: a resume keeps the conversation's, anything else gets
/// a new one.
pub fn session_id_for(resume: Option<Source>) -> (id: SessionId)
    ensures
        match resume {
            Some(Source::Resume(prev)) => id == prev,
            _ => is_random_id(id),
        },
{
    match resume {
        Some(Source::Resume(prev)) => prev,
        _ => new_session_id(),
    }
}

/// The program and its arguments for a conversation that carries on, branches off or
/// starts.
pub open spec fn session_args(agent: Seq<char>, resume: Option<Source>, id: SessionId) -> Seq<
    Seq<char>,
> {
    match resume {
        Some(Source::Resume(prev)) => seq![agent, "--resume"@, hyphenated(prev)],
        Some(Source::Fork(prev)) => seq![
            agent,
            "--session-id"@,
            hyphenated(id),
            "--resume"@,
            hyphenated(prev),
            "--fork-session"@,
        ],
        None => seq![agent, "--session-id"@, hyphenated(id)],
    }
}

fn extend(list: &mut Vec<String>, more: &Vec<String>)
    ensures
        texts(final(list)@) == texts(old(list)@) + texts(more@),
{
    let mut tail: Vec<String> = copies(more);
    let ghost before = list@;
    list.append(&mut tail);
    proof {
        assert(texts(list@) =~= texts(before) + texts(more@));
    }
}

/// The command a session in an existing workspace is started with, the flags that every
/// session is given last.
pub fn session_command(
    agent: &str,
    resume: Option<Source>,
    id: SessionId,
    flags: &Vec<String>,
) -> (r: Vec<String>)
    ensures
        texts(r@) == session_args(agent@, resume, id) + texts(flags@),
{
    let mut cmd: Vec<String> = Vec::new();
    cmd.push(agent.to_owned());
    match resume {
        Some(Source::Resume(prev)) => {
            cmd.push("--resume".to_owned());
            cmd.push(session_text(prev));
        },
        Some(Source::Fork(prev)) => {
            cmd.push("--session-id".to_owned());
            cmd.push(session_text(id));
            cmd.push("--resume".to_owned());
            cmd.push(session_text(prev));
            cmd.push("--fork-session".to_owned());
        },
        None => {
            cmd.push("--session-id".to_owned());
            cmd.push(session_text(id));
        },
    }
    proof {
        assert(texts(cmd@) =~= session_args(agent@, resume, id));
    }
    extend(&mut cmd, flags);
    cmd
}

/// The record of a session in an existing workspace.
pub open spec fn session_record_is(
    s: Session,
    prev: Option<Session>,
    resume: Option<Source>,
    tree_branch: Option<String>,
    fresh: Session,
) -> bool {
    let fork = resume matches Some(Source::Fork(_));
    let c = if resume is Some {
        carried_from(prev, fork)
    } else {
        carried_from(None, false)
    };
    s == (Session {
        branch: if c.branch is Some {
            c.branch
        } else {
            tree_branch
        },
        forked_from: match resume {
            Some(Source::Fork(p)) => Some(p),
            _ => c.forked_from,
        },
        ..continued(c, fresh)
    })
}

/// The record a session starts with: fresh, with what the conversation it continues
/// hands on. `prev` is the record of the session that is resumed or forked, and
/// `tree_branch` what the tree has checked out, which counts only where the
/// conversation does not know its own branch.
pub fn session_record(
    prev: Option<&Session>,
    resume: Option<Source>,
    fresh: Session,
    tree_branch: Option<String>,
) -> (r: Session)
    ensures
        session_record_is(
            r,
            match prev {
                Some(p) => Some(*p),
                None => None,
            },
            resume,
            tree_branch,
            fresh,
        ),
{
    let fork: bool = matches!(resume, Some(Source::Fork(_)));
    let carried: Carried = match resume {
        Some(_) => Carried::from(prev, fork),
        None => Carried::from(None, false),
    };
    let mut session: Session = fresh;
    let branch: Option<String> = carried.apply(&mut session);
    session.branch = match branch {
        Some(b) => Some(b),
        None => tree_branch,
    };
    match resume {
        Some(Source::Fork(prev)) => {
            session.forked_from = Some(prev);
        },
        _ => {},
    }
    session
}

/// What a session is started with.
pub struct Launch {
    pub command: Vec<String>,
    pub record: Session,
    pub env: Vec<(String, String)>,
    /// The variables that are taken out of what the process would inherit.
    pub unset: Vec<String>,
}

/// Whether a record is a fresh one for a session here.
pub open spec fn is_new(
    s: Session,
    id: SessionId,
    workspace: Seq<char>,
    cwd: Seq<char>,
    pass: Option<Pass>,
    now: Moment,
    token: String,
) -> bool {
    s.id == id && s.workspace@ == workspace && s.cwd@ == cwd && s.pass == pass && s.ask_token
        == token && is_fresh(s, now)
}

/// What a session in an existing workspace is started with: its command, its record with
/// what the conversation it continues hands on, and its environment with the proposals
/// credential minted for it where it posts any. `path` is the workspace's, where it is
/// known.
pub fn spawn_session_with_id(
    list: &Vec<Session>,
    agent: &str,
    workspace: &str,
    path: Option<&str>,
    pass: Option<Pass>,
    resume: Option<Source>,
    id: SessionId,
    flags: &Vec<String>,
    tree_branch: Option<String>,
    session_env: Environment,
    minted: &str,
    now: Moment,
    token: String,
) -> (r: Result<Launch, ApiError>)
    ensures
        path is None ==> r is Err && r->Err_0@ == Said::Failed(
            "unknown workspace "@ + workspace@,
        ),
        path is Some ==> r is Ok,
        r is Ok ==> texts(r->Ok_0.command@) == session_args(agent@, resume, id) + texts(flags@),
        r is Ok ==> exists|fresh: Session| #[trigger]
            is_new(fresh, id, workspace@, path->Some_0@, pass, now, token) && session_record_is(
                r->Ok_0.record,
                continued_from(list@, resume),
                resume,
                tree_branch,
                fresh,
            ),
        r is Ok ==> pairs(r->Ok_0.env@) == pairs(session_env.0@) + credential(pass, minted@),
        r is Ok ==> r->Ok_0.unset == session_env.1,
{
    let at: &str = match path {
        Some(p) => p,
        None => {
            return Err(refuse(cat2("unknown workspace ", workspace)));
        },
    };
    let command: Vec<String> = session_command(agent, resume, id, flags);
    let post: Option<&str> = match post_token_for(&pass) {
        Some(_) => Some(minted),
        None => None,
    };
    let fresh: Session = Session::new(
        id,
        workspace.to_owned(),
        at.to_owned(),
        pass,
        now,
        token,
    );
    proof {
        assert(is_new(fresh, id, workspace@, at@, pass, now, token));
    }
    let from: Option<usize> = match resume {
        Some(Source::Resume(p)) => locate(list, p),
        Some(Source::Fork(p)) => locate(list, p),
        None => None,
    };
    let record: Session = match from {
        Some(i) => session_record(Some(&list[i]), resume, fresh, tree_branch),
        None => session_record(None, resume, fresh, tree_branch),
    };
    let none: Vec<(String, String)> = Vec::new();
    let (env, unset) = run_env(session_env, post, &none);
    proof {
        let head = pairs(session_env.0@) + credential(pass, minted@);
        assert(pairs(none@) =~= Seq::empty());
        assert(head + pairs(none@) =~= head);
        assert(pairs(env@) == head);
        assert(session_record_is(
            record,
            continued_from(list@, resume),
            resume,
            tree_branch,
            fresh,
        ));
    }
    Ok(Launch { command, record, env, unset })
}

/// The record of the session that is continued, if one is and it is still there.
pub open spec fn continued_from(list: Seq<Session>, resume: Option<Source>) -> Option<Session> {
    match resume {
        None => None,
        Some(from) => {
            let id = match from {
                Source::Resume(p) => p,
                Source::Fork(p) => p,
            };
            if seated(list, id) {
                Some(list[seat(list, id)])
            } else {
                None
            }
        },
    }
}

/// A resume loses nothing that the record alone knows: the branch, the notice, the name,
/// who spawned it and how, what it was forked from, when it began, and whether a turn
/// was had or cut off.
pub proof fn a_resume_keeps_the_conversation(
    s: Session,
    prev: Session,
    tree_branch: Option<String>,
    fresh: Session,
)
    requires
        session_record_is(s, Some(prev), Some(Source::Resume(prev.id)), tree_branch, fresh),
    ensures
        s.interrupted == prev.interrupted,
        s.had_a_turn == prev.had_a_turn,
        s.arrival_notice == prev.arrival_notice,
        s.name == prev.name,
        s.created_at == prev.created_at,
        s.spawned_by == prev.spawned_by,
        s.spawn_cut_worktree == prev.spawn_cut_worktree,
        s.forked_from == prev.forked_from,
        prev.branch is Some ==> s.branch == prev.branch,
        s.id == fresh.id && s.workspace == fresh.workspace && s.cwd == fresh.cwd && s.ask_token
            == fresh.ask_token,
{
}

/// A fork is a conversation of its own: it begins now, at a fresh prompt, under no name,
/// and knows what it was cut from. It opens on the turns of the one it was cut from.
pub proof fn a_fork_begins_anew(
    s: Session,
    prev: Session,
    tree_branch: Option<String>,
    fresh: Session,
)
    requires
        session_record_is(s, Some(prev), Some(Source::Fork(prev.id)), tree_branch, fresh),
    ensures
        !s.interrupted,
        s.name is None,
        s.created_at == fresh.created_at,
        s.forked_from == Some(prev.id),
        s.had_a_turn == prev.had_a_turn,
{
}

/// A session is about the branch that its tree has checked out, unless it continues a
/// conversation that knows its own: so it is for a session that continues nothing, for one
/// whose conversation has no record left, and for one whose record names no branch.
pub proof fn a_session_is_about_its_trees_branch(
    s: Session,
    prev: Option<Session>,
    resume: Option<Source>,
    tree_branch: Option<String>,
    fresh: Session,
)
    requires
        session_record_is(s, prev, resume, tree_branch, fresh),
    ensures
        resume is None || prev is None || prev->Some_0.branch is None ==> s.branch == tree_branch,
        resume is Some && prev is Some && prev->Some_0.branch is Some ==> s.branch
            == prev->Some_0.branch,
{
}

/// A session that continues nothing starts from nothing: its record is a fresh one on its
/// tree's branch. So does a resume whose record is gone, and a fork then knows only what it
/// was cut from.
pub proof fn a_new_session_starts_from_nothing(
    s: Session,
    prev: Option<Session>,
    resume: Option<Source>,
    tree_branch: Option<String>,
    fresh: Session,
    now: Moment,
)
    requires
        session_record_is(s, prev, resume, tree_branch, fresh),
        is_fresh(fresh, now),
    ensures
        resume is None ==> s == (Session { branch: tree_branch, ..fresh }),
        prev is None && (resume matches Some(Source::Resume(_))) ==> s == (Session {
            branch: tree_branch,
            ..fresh
        }),
        forall|p: SessionId| prev is None && resume == Some(Source::Fork(p)) ==> s == (Session {
            branch: tree_branch,
            forked_from: Some(p),
            ..fresh
        }),
{
}

/// Whatever a session continues, it runs as itself: under its own id, in its own workspace
/// and folder, with its own credential and pass, starting now and with nothing of the old
/// terminal.
pub proof fn a_continued_session_runs_as_itself(
    s: Session,
    prev: Option<Session>,
    resume: Option<Source>,
    tree_branch: Option<String>,
    fresh: Session,
)
    requires
        session_record_is(s, prev, resume, tree_branch, fresh),
    ensures
        s.id == fresh.id,
        s.workspace == fresh.workspace,
        s.cwd == fresh.cwd,
        s.ask_token == fresh.ask_token,
        s.pass == fresh.pass,
        s.state == fresh.state,
        s.state_since == fresh.state_since,
        s.pty == fresh.pty,
        s.pid == fresh.pid,
        s.pending_prompt == fresh.pending_prompt,
        s.outside_grants == fresh.outside_grants,
        s.outside_ask == fresh.outside_ask,
        s.interaction == fresh.interaction,
        s.restart_queued == fresh.restart_queued,
        s.fix_pr_on_exit == fresh.fix_pr_on_exit,
        s.recovery == fresh.recovery,
        s.agent_stale == fresh.agent_stale,
{
}

/// A fork is told what its conversation was still to be told, and was spawned by whom that
/// one was.
pub proof fn a_fork_is_handed_the_notice(
    s: Session,
    prev: Session,
    tree_branch: Option<String>,
    fresh: Session,
)
    requires
        session_record_is(s, Some(prev), Some(Source::Fork(prev.id)), tree_branch, fresh),
    ensures
        s.arrival_notice == prev.arrival_notice,
        s.spawned_by == prev.spawned_by,
        s.spawn_cut_worktree == prev.spawn_cut_worktree,
{
}

/// Whether a command has an option directly followed by this id.
pub open spec fn names_id(args: Seq<Seq<char>>, option: Seq<char>, id: SessionId) -> bool {
    exists|k: int|
        0 < k < args.len() - 1 && #[trigger] args[k] == option && args[k + 1] == hyphenated(id)
}

/// A conversation that carries on is resumed under its own id and is given no other; one
/// that branches off is resumed as a fork under the new id; and one that starts is resumed
/// from nothing. So in a workspace that stands as in a worktree that was cut for it.
pub proof fn a_command_names_its_conversation(agent: Seq<char>, prev: SessionId, id: SessionId)
    requires
        agent.len() > 0,
        agent[0] != '-',
    ensures
        ({
            let a = session_args(agent, Some(Source::Resume(prev)), id);
            &&& a[0] == agent
            &&& names_id(a, "--resume"@, prev)
            &&& !a.contains("--session-id"@)
            &&& !a.contains("--fork-session"@)
        }),
        ({
            let a = session_args(agent, Some(Source::Fork(prev)), id);
            &&& a[0] == agent
            &&& names_id(a, "--resume"@, prev)
            &&& names_id(a, "--session-id"@, id)
            &&& a.contains("--fork-session"@)
        }),
        ({
            let a = session_args(agent, None, id);
            &&& a[0] == agent
            &&& names_id(a, "--session-id"@, id)
            &&& !a.contains("--resume"@)
            &&& !a.contains("--fork-session"@)
        }),
        ({
            let a = worktree_args(agent, Some(prev), id);
            &&& a[0] == agent
            &&& names_id(a, "--resume"@, prev)
            &&& names_id(a, "--session-id"@, id)
            &&& a.contains("--fork-session"@)
        }),
        ({
            let a = worktree_args(agent, None, id);
            &&& a[0] == agent
            &&& names_id(a, "--session-id"@, id)
            &&& !a.contains("--resume"@)
            &&& !a.contains("--fork-session"@)
        }),
{
    reveal_strlit("--resume");
    reveal_strlit("--session-id");
    reveal_strlit("--fork-session");
    reveal_strlit("-");
    crate::ids::lemma_hex_len(id as nat, 32);
    crate::ids::lemma_hex_len(prev as nat, 32);
    let one = session_args(agent, Some(Source::Resume(prev)), id);
    assert(one[1] == "--resume"@ && one[2] == hyphenated(prev));
    let two = session_args(agent, Some(Source::Fork(prev)), id);
    assert(two[1] == "--session-id"@ && two[3] == "--resume"@ && two[5] == "--fork-session"@);
    let three = session_args(agent, None, id);
    assert(three[1] == "--session-id"@ && three[2] == hyphenated(id));
    let four = worktree_args(agent, Some(prev), id);
    assert(four[1] == "--resume"@ && four[3] == "--fork-session"@ && four[4] == "--session-id"@);
    let five = worktree_args(agent, None, id);
    assert(five[1] == "--session-id"@ && five[2] == hyphenated(id));
    assert(hyphenated(id).len() == 36 && hyphenated(prev).len() == 36);
    assert("--resume"@.len() == 8 && "--session-id"@.len() == 12 && "--fork-session"@.len() == 14);
}

// ---------------------------------------------------------------------------
// A session in a new worktree
// ---------------------------------------------------------------------------

/// The program and its arguments in a worktree that was cut for it.
pub open spec fn worktree_args(agent: Seq<char>, fork: Option<SessionId>, id: SessionId) -> Seq<
    Seq<char>,
> {
    match fork {
        Some(prev) => seq![
            agent,
            "--resume"@,
            hyphenated(prev),
            "--fork-session"@,
            "--session-id"@,
            hyphenated(id),
        ],
        None => seq![agent, "--session-id"@, hyphenated(id)],
    }
}

pub fn worktree_command(
    agent: &str,
    fork: Option<SessionId>,
    id: SessionId,
    flags: &Vec<String>,
) -> (r: Vec<String>)
    ensures
        texts(r@) == worktree_args(agent@, fork, id) + texts(flags@),
{
    let mut cmd: Vec<String> = Vec::new();
    cmd.push(agent.to_owned());
    match fork {
        Some(prev) => {
            cmd.push("--resume".to_owned());
            cmd.push(session_text(prev));
            cmd.push("--fork-session".to_owned());
        },
        None => {},
    }
    cmd.push("--session-id".to_owned());
    cmd.push(session_text(id));
    proof {
        assert(texts(cmd@) =~= worktree_args(agent@, fork, id));
    }
    extend(&mut cmd, flags);
    cmd
}

/// A name that could be given to a worktree, and whether something is in its way on
/// disk.
pub struct Candidate {
    pub name: String,
    pub on_disk: bool,
}

pub open spec fn is_free(c: Candidate, held: Seq<Seq<char>>) -> bool {
    !held.contains(c.name@) && !c.on_disk
}

/// The first candidate that neither a workspace nor a directory holds.
pub open spec fn first_free(cs: Seq<Candidate>, held: Seq<Seq<char>>) -> Option<Seq<char>>
    decreases cs.len(),
{
    if cs.len() == 0 {
        None
    } else if is_free(cs[0], held) {
        Some(cs[0].name@)
    } else {
        first_free(cs.skip(1), held)
    }
}

/// A free name is one that neither a workspace nor a directory holds.
pub proof fn lemma_first_free(cs: Seq<Candidate>, held: Seq<Seq<char>>)
    ensures
        first_free(cs, held) matches Some(n) ==> !held.contains(n) && exists|i: int|
            0 <= i < cs.len() && (#[trigger] cs[i]).name@ == n && !cs[i].on_disk,
    decreases cs.len(),
{
    if cs.len() > 0 {
        if is_free(cs[0], held) {
            assert(cs[0].name@ == first_free(cs, held)->Some_0);
        } else {
            let rest = cs.skip(1);
            lemma_first_free(rest, held);
            if let Some(n) = first_free(rest, held) {
                let i = choose|i: int|
                    0 <= i < rest.len() && (#[trigger] rest[i]).name@ == n && !rest[i].on_disk;
                assert(cs[i + 1] == rest[i]);
            }
        }
    }
}

/// A name is given wherever one is free: the first that neither a workspace nor a directory
/// has, and none only where all of them are taken.
pub proof fn the_first_free_name_is_given(cs: Seq<Candidate>, held: Seq<Seq<char>>, i: int)
    requires
        0 <= i < cs.len(),
        !held.contains(cs[i].name@),
        !cs[i].on_disk,
        forall|k: int| 0 <= k < i ==> held.contains((#[trigger] cs[k]).name@) || cs[k].on_disk,
    ensures
        first_free(cs, held) == Some(cs[i].name@),
    decreases cs.len(),
{
    if i > 0 {
        let rest = cs.skip(1);
        assert(held.contains(cs[0].name@) || cs[0].on_disk);
        assert forall|k: int| 0 <= k < i - 1 implies held.contains((#[trigger] rest[k]).name@)
            || rest[k].on_disk by {
            assert(rest[k] == cs[k + 1]);
        }
        the_first_free_name_is_given(rest, held, i - 1);
    }
}

/// A worktree goes by the name asked for, else by its spare's own, else by a free one, and
/// by the session's id only where there is none of these.
pub proof fn a_worktree_goes_by_what_was_asked(
    asked: Option<Seq<char>>,
    spare: Option<Seq<char>>,
    free: Option<Seq<char>>,
    id: SessionId,
    name: Seq<char>,
)
    ensures
        worktree_name(Some(name), spare, free, id) == name,
        worktree_name(None, Some(name), free, id) == name,
        worktree_name(None, None, Some(name), id) == name,
        short(id).is_suffix_of(worktree_name(None, None, None, id)),
        worktree_name(None, None, None, id) == "wt-"@ + short(id),
{
    let w = worktree_name(None, None, None, id);
    assert(w.subrange(w.len() - short(id).len(), w.len() as int) =~= short(id));
}

/// The first candidate that neither a workspace nor a directory holds.
pub fn free_candidate(cs: &Vec<Candidate>, held: &Vec<String>) -> (r: Option<String>)
    ensures
        opt_text(r) == first_free(cs@, texts(held@)),
{
    let mut i: usize = 0;
    proof {
        assert(cs@.skip(0) =~= cs@);
    }
    while i < cs.len()
        invariant
            i <= cs@.len(),
            first_free(cs@, texts(held@)) == first_free(cs@.skip(i as int), texts(held@)),
        decreases cs@.len() - i,
    {
        if !listed(held, cs[i].name.as_str()) && !cs[i].on_disk {
            return Some(cs[i].name.clone());
        }
        proof {
            assert(cs@.skip(i as int).skip(1) =~= cs@.skip(i + 1));
        }
        i += 1;
    }
    None
}

/// The name of the worktree to open in: the one asked for, else the spare's own, else
/// the first free one, else one made from the session's id.
pub open spec fn worktree_name(
    asked: Option<Seq<char>>,
    spare: Option<Seq<char>>,
    free: Option<Seq<char>>,
    id: SessionId,
) -> Seq<char> {
    match asked {
        Some(n) => n,
        None => match spare {
            Some(n) => n,
            None => match free {
                Some(n) => n,
                None => "wt-"@ + short(id),
            },
        },
    }
}

pub fn choose_worktree_name(
    asked: Option<&str>,
    spare: Option<&str>,
    candidates: &Vec<Candidate>,
    held: &Vec<String>,
    id: SessionId,
) -> (r: String)
    ensures
        r@ == worktree_name(
            opt_str(asked),
            opt_str(spare),
            first_free(candidates@, texts(held@)),
            id,
        ),
{
    match asked {
        Some(n) => n.to_owned(),
        None => match spare {
            Some(n) => n.to_owned(),
            None => match free_candidate(candidates, held) {
                Some(n) => n,
                None => {
                    let eight: String = short_simple(id);
                    cat2("wt-", eight.as_str())
                },
            },
        },
    }
}

/// Whether a request can take a pre-cut worktree: only one that asks for no name and
/// forks nothing.
pub fn takes_a_spare(asked: Option<&str>, fork: Option<SessionId>) -> (r: bool)
    ensures
        r == (asked is None && fork is None),
{
    asked.is_none() && fork.is_none()
}

/// What a new worktree is cut from.
pub open spec fn cut_from(parent_head: Option<Seq<char>>, upstream_ref: Seq<char>) -> Seq<char> {
    match parent_head {
        Some(h) => h,
        None => upstream_ref,
    }
}

/// A fork's tree stands where its parent stood, whatever upstream has since become, and any
/// other tree stands on upstream.
pub proof fn a_tree_is_cut_from_its_parent_or_upstream(head: Seq<char>, upstream_ref: Seq<char>)
    ensures
        cut_from(Some(head), upstream_ref) == head,
        cut_from(None, upstream_ref) == upstream_ref,
{
}

/// What a new worktree is cut from: the commit the forked conversation stood on, where
/// there is one, and the upstream base where there is not.
pub fn worktree_base(parent_head: Option<&str>, upstream_ref: &str) -> (r: String)
    ensures
        r@ == cut_from(opt_str(parent_head), upstream_ref@),
{
    match parent_head {
        Some(h) => h.to_owned(),
        None => upstream_ref.to_owned(),
    }
}

/// What a fork is told when it wakes up.
pub open spec fn fork_notice(cwd: Seq<char>, carried: Option<Seq<char>>) -> Seq<char> {
    "You are a fork, in a new worktree at "@ + cwd
        + " cut from the commit the conversation you are replaying was on. It is not the tree that conversation was written in, so re-read before trusting a remembered path. "@
        + match carried {
        Some(c) => c,
        None => "The original tree had no uncommitted work to carry"@,
    } + "."@
}

/// The record of a session in a new worktree.
pub open spec fn worktree_record_is(
    s: Session,
    fresh: Session,
    branch: Option<String>,
    fork: Option<SessionId>,
    carried: Option<Seq<char>>,
) -> bool {
    &&& s == (Session {
        branch,
        forked_from: fork,
        had_a_turn: fork is Some,
        arrival_notice: s.arrival_notice,
        ..fresh
    })
    &&& opt_text(s.arrival_notice) == if fork is Some {
        Some(fork_notice(fresh.cwd@, carried))
    } else {
        opt_text(fresh.arrival_notice)
    }
}

/// The record a session in a new worktree starts with: on the branch the tree really
/// holds, and for a fork with its origin and what it has to be told. A fork opens on
/// the conversation it replays, so it had a turn from birth.
pub fn worktree_record(
    fresh: Session,
    branch: Option<String>,
    fork: Option<SessionId>,
    carried: Option<&str>,
) -> (r: Session)
    ensures
        worktree_record_is(r, fresh, branch, fork, opt_str(carried)),
{
    let mut session: Session = fresh;
    session.branch = branch;
    session.forked_from = fork;
    session.had_a_turn = fork.is_some();
    if fork.is_some() {
        let what: &str = match carried {
            Some(c) => c,
            None => "The original tree had no uncommitted work to carry",
        };
        let mut note: String = cat3(
            "You are a fork, in a new worktree at ",
            session.cwd.as_str(),
            " cut from the commit the conversation you are replaying was on. It is not the tree that conversation was written in, so re-read before trusting a remembered path. ",
        );
        note.append(what);
        note.append(".");
        session.arrival_notice = Some(note);
    }
    session
}

/// What a session in a new worktree is started with: its command, its record on the
/// branch the tree really holds, and its environment: it posts nothing, so it is handed no
/// credential for that. `name` and `cwd` are the tree's, and
/// `carried` what travelled into a fork, in words.
pub fn worktree_launch(
    agent: &str,
    name: &str,
    cwd: &str,
    fork: Option<SessionId>,
    id: SessionId,
    flags: &Vec<String>,
    branch: Option<String>,
    carried: Option<&str>,
    session_env: Environment,
    now: Moment,
    token: String,
) -> (r: Launch)
    ensures
        texts(r.command@) == worktree_args(agent@, fork, id) + texts(flags@),
        exists|fresh: Session| #[trigger]
            is_new(fresh, id, name@, cwd@, None, now, token) && worktree_record_is(
                r.record,
                fresh,
                branch,
                fork,
                opt_str(carried),
            ),
        pairs(r.env@) == pairs(session_env.0@),
        r.unset == session_env.1,
{
    let fresh: Session = Session::new(id, name.to_owned(), cwd.to_owned(), None, now, token);
    proof {
        assert(is_new(fresh, id, name@, cwd@, None, now, token));
    }
    let none: Vec<(String, String)> = Vec::new();
    let (env, unset) = run_env(session_env, None, &none);
    proof {
        assert(pairs(session_env.0@) + Seq::empty() + pairs(none@) =~= pairs(session_env.0@));
    }
    Launch {
        command: worktree_command(agent, fork, id, flags),
        record: worktree_record(fresh, branch, fork, carried),
        env,
        unset,
    }
}

// ---------------------------------------------------------------------------
// What travels into a fork
// ---------------------------------------------------------------------------

/// What became of the uncommitted changes, in words.
pub open spec fn changes_said(moved: Result<bool, String>) -> Seq<Seq<char>> {
    match moved {
        Ok(true) => seq!["its uncommitted changes were carried in with it"@],
        Ok(false) => Seq::empty(),
        Err(e) => seq!["its uncommitted changes could NOT be carried in ("@ + e@ + ")"@],
    }
}

/// Which untracked files stayed behind, in words: how many, and the first four by name.
pub open spec fn left_said(files: Seq<Seq<char>>) -> Seq<Seq<char>> {
    if files.len() == 0 {
        Seq::empty()
    } else {
        let shown = if files.len() > 4 {
            files.take(4)
        } else {
            files
        };
        seq![
            decimal(files.len()) + " untracked file"@ + (if files.len() == 1 {
                ""@
            } else {
                "s"@
            }) + " stayed in the original tree and "@ + (if files.len() == 1 {
                "is"@
            } else {
                "are"@
            }) + " NOT here: "@ + joined(shown, ", "@) + (if files.len() > 4 {
                ", and "@ + decimal((files.len() - 4) as nat) + " more"@
            } else {
                Seq::empty()
            }),
        ]
    }
}

/// What a fork is told of the work it was cut from, or nothing where the parent was
/// clean. Untracked files that could not be listed are not spoken of.
pub open spec fn carry_said(moved: Result<bool, String>, left: Option<Seq<Seq<char>>>) -> Option<
    Seq<char>,
> {
    let parts = changes_said(moved) + match left {
        Some(f) => left_said(f),
        None => Seq::empty(),
    };
    if parts.len() == 0 {
        None
    } else {
        Some(joined(parts, ". "@))
    }
}

fn first_four(files: &Vec<String>) -> (r: Vec<String>)
    ensures
        texts(r@) == if files@.len() > 4 {
            texts(files@).take(4)
        } else {
            texts(files@)
        },
{
    let mut out: Vec<String> = copies(files);
    if out.len() > 4 {
        out.truncate(4);
        proof {
            assert(texts(out@) =~= texts(files@).take(4));
        }
    }
    out
}

fn left_words(files: &Vec<String>) -> (r: String)
    requires
        files@.len() > 0,
    ensures
        seq![r@] == left_said(texts(files@)),
{
    let n: usize = files.len();
    let shown: Vec<String> = first_four(files);
    let count: String = number(n as u64);
    let list: String = join(&shown, ", ");
    let mut out: String = count;
    out.append(" untracked file");
    out.append(
        if n == 1 {
            ""
        } else {
            "s"
        },
    );
    out.append(" stayed in the original tree and ");
    out.append(
        if n == 1 {
            "is"
        } else {
            "are"
        },
    );
    out.append(" NOT here: ");
    out.append(list.as_str());
    if n > 4 {
        let more: String = number((n - 4) as u64);
        let tail: String = cat3(", and ", more.as_str(), " more");
        out.append(tail.as_str());
    } else {
        proof {
            assert(out@ + Seq::<char>::empty() =~= out@);
        }
    }
    proof {
        assert(seq![out@] =~= left_said(texts(files@)));
    }
    out
}

/// The sentence a fork is told of the work in the tree it was cut from. `moved` is
/// whether there were uncommitted changes to carry, or why they could not be, and `left`
/// the untracked files that stayed, where they could be listed.
pub fn carry_into(moved: &Result<bool, String>, left: Option<&Vec<String>>) -> (r: Option<String>)
    ensures
        opt_text(r) == carry_said(
            *moved,
            match left {
                Some(f) => Some(texts(f@)),
                None => None,
            },
        ),
{
    let mut said: Vec<String> = Vec::new();
    match moved {
        Ok(true) => {
            said.push("its uncommitted changes were carried in with it".to_owned());
        },
        Ok(false) => {},
        Err(e) => {
            said.push(cat3("its uncommitted changes could NOT be carried in (", e.as_str(), ")"));
        },
    }
    let ghost first = texts(said@);
    proof {
        assert(first =~= changes_said(*moved));
        assert(first + Seq::<Seq<char>>::empty() =~= first);
    }
    match left {
        Some(f) => {
            if f.len() > 0 {
                said.push(left_words(f));
                proof {
                    assert(texts(said@) =~= first + left_said(texts(f@)));
                }
            } else {
                proof {
                    assert(texts(f@).len() == 0);
                }
            }
        },
        None => {},
    }
    if said.len() == 0 {
        None
    } else {
        Some(join(&said, ". "))
    }
}

/// What a session continues is the record of the conversation it resumes or forks.
pub proof fn a_session_continues_the_one_it_names(
    list: Seq<Session>,
    id: SessionId,
    i: int,
)
    requires
        0 <= i <= list.len(),
        forall|k: int| 0 <= k < i ==> (#[trigger] list[k]).id != id,
        i < list.len() ==> list[i].id == id,
    ensures
        continued_from(list, None) is None,
        continued_from(list, Some(Source::Resume(id))) == if i < list.len() {
            Some(list[i])
        } else {
            None
        },
        continued_from(list, Some(Source::Fork(id))) == continued_from(
            list,
            Some(Source::Resume(id)),
        ),
{
    lemma_seat(list, id, i);
}

/// A session in a new worktree is on the branch its tree holds. A fork knows where it came
/// from, has its turns behind it, and is told where it is and what travelled; anything else
/// starts with nothing said.
pub proof fn a_worktrees_session_knows_where_it_is(
    s: Session,
    fresh: Session,
    branch: Option<String>,
    fork: Option<SessionId>,
    carried: Option<Seq<char>>,
)
    requires
        worktree_record_is(s, fresh, branch, fork, carried),
    ensures
        s.branch == branch,
        s.forked_from == fork,
        s.had_a_turn <==> fork is Some,
        s.id == fresh.id && s.workspace == fresh.workspace && s.cwd == fresh.cwd && s.pass
            == fresh.pass && s.ask_token == fresh.ask_token && s.state == fresh.state,
        fork is None && fresh.arrival_notice is None ==> s.arrival_notice is None,
        fork is Some ==> s.arrival_notice is Some && holds_text(
            s.arrival_notice->Some_0@,
            fresh.cwd@,
        ),
        fork is Some && carried is Some ==> holds_text(
            s.arrival_notice->Some_0@,
            carried->Some_0,
        ),
{
    if fork is Some {
        let said = fork_notice(fresh.cwd@, carried);
        let n = "You are a fork, in a new worktree at "@.len() as int;
        assert(said.subrange(n, n + fresh.cwd@.len()) =~= fresh.cwd@);
        assert(stands_at(said, n, fresh.cwd@));
        if let Some(c) = carried {
            let at = said.len() - "."@.len() - c.len();
            assert(said.subrange(at as int, at + c.len()) =~= c);
            assert(stands_at(said, at as int, c));
        }
    }
}

/// A fork is told of its parent's work exactly where there was some: what could not be carried
/// is said to be missing, and of what stayed behind the first four are named and the rest
/// counted.
pub proof fn a_fork_is_told_what_it_lacks(
    moved: Result<bool, String>,
    left: Option<Seq<Seq<char>>>,
)
    ensures
        carry_said(moved, left) is None <==> moved == Ok::<bool, String>(false) && (left is None
            || left->Some_0.len() == 0),
        moved is Err ==> carry_said(moved, left) is Some,
        left is Some && left->Some_0.len() > 0 ==> left_said(left->Some_0).len() == 1 && decimal(
            left->Some_0.len(),
        ).is_prefix_of(left_said(left->Some_0)[0]),
        left is Some && 0 < left->Some_0.len() <= 4 ==> joined(left->Some_0, ", "@).is_suffix_of(
            left_said(left->Some_0)[0],
        ),
        left is Some && left->Some_0.len() > 4 ==> (joined(left->Some_0.take(4), ", "@) + ", and "@
            + decimal((left->Some_0.len() - 4) as nat) + " more"@).is_suffix_of(
            left_said(left->Some_0)[0],
        ),
        moved == Ok::<bool, String>(true) ==> changes_said(moved) == seq![
            "its uncommitted changes were carried in with it"@,
        ],
        moved is Err ==> changes_said(moved).len() == 1 && holds_text(
            changes_said(moved)[0],
            moved->Err_0@,
        ) && holds_text(changes_said(moved)[0], "could NOT be carried in"@),
{
    if let Some(files) = left {
        if files.len() > 0 {
            let said = left_said(files)[0];
            assert(said.subrange(0, decimal(files.len()).len() as int) =~= decimal(files.len()));
            if files.len() <= 4 {
                let end = joined(files, ", "@);
                assert(said.subrange(said.len() - end.len(), said.len() as int) =~= end);
            } else {
                let end = joined(files.take(4), ", "@) + ", and "@ + decimal(
                    (files.len() - 4) as nat,
                ) + " more"@;
                assert(said.subrange(said.len() - end.len(), said.len() as int) =~= end);
            }
        }
    }
    if let Err(e) = moved {
        let said = changes_said(moved)[0];
        let head = "its uncommitted changes could NOT be carried in ("@;
        let n = head.len() as int;
        assert(said.subrange(n, n + e@.len()) =~= e@);
        assert(stands_at(said, n, e@));
        reveal_strlit("its uncommitted changes could NOT be carried in (");
        reveal_strlit("could NOT be carried in");
        let not = "could NOT be carried in"@;
        assert(said.subrange(24, (24 + not.len()) as int) =~= not);
        assert(stands_at(said, 24, not));
    }
}

} // verus!
