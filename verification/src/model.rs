//! The daemon's own domain model: workspaces, sessions, processes, and the state
//! a session moves through.

use vstd::prelude::*;
use vstd::string::*;
use std::collections::HashMap;
pub use crate::ids::{short_id, SessionId};
pub use crate::tracker::{Cache, StoryRef};
use crate::paths::{is_under, under};
use crate::text::{opt_str, opt_text, same};

verus! {

/// A point in time, in nanoseconds since the Unix epoch.
pub type Moment = u64;

/// `"main"` for the privileged checkout, the worktree name otherwise.
pub type WorkspaceId = String;

/// The privileged checkout's workspace id.
pub const MAIN: &'static str = "main";

// ---------------------------------------------------------------------------
// Workspace
// ---------------------------------------------------------------------------

pub enum WorkspaceKind {
    /// Docker stack, dev URL, `ng build --watch`.
    Main,
    Worktree { name: String },
}

/// What the last look at a workspace's tree measured. The default is "measured
/// nothing yet".
pub struct Tree {
    /// The paths changed since the branch point, or the first of them.
    pub changed: Vec<String>,
    /// How many there are in all.
    pub changed_total: u32,
    /// What this tree has checked out now.
    pub branch: Option<String>,
    /// The commit that `changed` is measured from.
    pub base: Option<String>,
    /// (behind, ahead) against the upstream base.
    pub divergence: (u32, u32),
    /// Commits this branch holds that its own remote does not.
    pub unpushed: u32,
    pub rebasing: bool,
    /// Whether the fields above have ever been filled.
    pub measured: bool,
}

impl Default for Tree {
    fn default() -> (r: Self)
        ensures
            r.changed@.len() == 0,
            r.changed_total == 0,
            r.branch is None,
            r.base is None,
            r.divergence == (0u32, 0u32),
            r.unpushed == 0,
            !r.rebasing,
            !r.measured,
    {
        Tree {
            changed: Vec::new(),
            changed_total: 0,
            branch: None,
            base: None,
            divergence: (0, 0),
            unpushed: 0,
            rebasing: false,
            measured: false,
        }
    }
}

/// Uncommitted work parked on a ref of its own while a rebase runs.
#[derive(Debug)]
pub struct Bank {
    /// The commit that holds the work.
    pub sha: String,
    /// How many files it covers.
    pub files: u64,
}

impl Clone for Bank {
    fn clone(&self) -> (r: Self)
        ensures
            r == *self,
    {
        Bank { sha: self.sha.clone(), files: self.files }
    }
}

pub struct Workspace {
    pub id: WorkspaceId,
    pub path: String,
    pub kind: WorkspaceKind,
    /// Every branch this tree has held.
    pub branches: Vec<String>,
    pub processes: Vec<Process>,
    /// Main only: the session that holds it.
    pub occupant: Option<SessionId>,
    pub tree: Tree,
    /// Uncommitted work parked out of a rebase's way, if any is.
    pub banked: Option<Bank>,
}

impl Workspace {
    pub fn is_main(&self) -> (r: bool)
        ensures
            r == (self.kind is Main),
    {
        matches!(self.kind, WorkspaceKind::Main)
    }
}

// ---------------------------------------------------------------------------
// Cutting a worktree
// ---------------------------------------------------------------------------

/// What a worktree cut is doing, while it does it.
pub struct CreateRun {
    /// The worktree being made.
    pub name: String,
    /// The script running now, by the name it is configured under.
    pub step: String,
    /// False once the scripts are done.
    pub running: bool,
    /// What the scripts said, oldest first, capped at [`CREATE_LINES`].
    pub lines: Vec<String>,
    /// The step that failed, and how.
    pub failed: Option<String>,
}

/// How much of a create's output is kept.
pub const CREATE_LINES: usize = 200;

/// The last `n` entries of a list, or all of them where there are fewer.
pub open spec fn tail<A>(s: Seq<A>, n: int) -> Seq<A> {
    if s.len() <= n {
        s
    } else {
        s.skip(s.len() - n)
    }
}

/// The lines that are kept once another has come.
pub open spec fn with_line(lines: Seq<String>, line: String) -> Seq<String> {
    if lines.len() >= CREATE_LINES {
        lines.skip(1).push(line)
    } else {
        lines.push(line)
    }
}

/// The newest line is always kept, and the last two hundred of them are: the oldest goes only
/// to make room.
pub proof fn the_last_lines_are_kept(lines: Seq<String>, line: String, i: int)
    requires
        lines.len() <= 200,
    ensures
        with_line(lines, line).last() == line,
        lines.len() < 200 ==> with_line(lines, line) == lines.push(line),
        lines.len() == 200 ==> with_line(lines, line).len() == 200 && (0 <= i < 199 ==> with_line(
            lines,
            line,
        )[i] == lines[i + 1]),
        with_line(lines, line) == tail(lines.push(line), 200),
{
    if lines.len() == 200 {
        assert(with_line(lines, line) =~= lines.push(line).skip(1));
    }
}

impl CreateRun {
    /// Add a line, dropping the oldest once the cap is reached.
    pub fn push(&mut self, line: String)
        ensures
            *final(self) == (CreateRun { lines: final(self).lines, ..*old(self) }),
            final(self).lines@ == with_line(old(self).lines@, line),
            old(self).lines@.len() <= CREATE_LINES ==> final(self).lines@ == tail(
                old(self).lines@.push(line),
                CREATE_LINES as int,
            ),
    {
        if self.lines.len() >= CREATE_LINES {
            let _ = self.lines.remove(0);
            proof {
                assert(self.lines@ =~= old(self).lines@.skip(1));
            }
        }
        self.lines.push(line);
        proof {
            if old(self).lines@.len() == CREATE_LINES {
                assert(self.lines@ =~= old(self).lines@.push(line).skip(1));
            }
        }
    }
}

/// Whether a cut reports to the board, or only to the log.
#[derive(Debug, Clone, Copy, PartialEq, Eq, Structural)]
pub enum Board {
    /// A person asked for this tree and is watching the overlay.
    Loud,
    /// The daemon decided to cut this tree.
    Quiet,
}

impl Board {
    pub fn is_loud(self) -> (r: bool)
        ensures
            r == (self is Loud),
    {
        self == Board::Loud
    }
}

// ---------------------------------------------------------------------------
// Session
// ---------------------------------------------------------------------------

/// Why a session is waiting on you.
#[derive(Debug, Clone, Copy, PartialEq, Eq, Structural)]
pub enum TurnReason {
    /// The agent finished its turn.
    TurnComplete,
    AskedAQuestion,
    NeedsPermission,
    /// Opened, never prompted.
    Ready,
    /// You cut the turn short.
    Interrupted,
}

#[derive(Debug)]
pub enum State {
    Starting,
    Working,
    YourTurn { since: Moment, reason: TurnReason },
    /// At rest while the workspace's build is red.
    BuildFailing { summary: String },
    Error { message: String },
    Exited,
    Archived { resumable: bool },
}

/// Whether two states are the same, their texts compared as texts.
pub open spec fn alike(a: State, b: State) -> bool {
    match (a, b) {
        (State::Starting, State::Starting) => true,
        (State::Working, State::Working) => true,
        (
            State::YourTurn { since: s, reason: x },
            State::YourTurn { since: t, reason: y },
        ) => s == t && x == y,
        (State::BuildFailing { summary: x }, State::BuildFailing { summary: y }) => x@ == y@,
        (State::Error { message: x }, State::Error { message: y }) => x@ == y@,
        (State::Exited, State::Exited) => true,
        (State::Archived { resumable: x }, State::Archived { resumable: y }) => x == y,
        _ => false,
    }
}

impl PartialEq for State {
    fn eq(&self, other: &State) -> (r: bool) {
        match (self, other) {
            (State::Starting, State::Starting) => true,
            (State::Working, State::Working) => true,
            (
                State::YourTurn { since: s, reason: x },
                State::YourTurn { since: t, reason: y },
            ) => *s == *t && *x == *y,
            (State::BuildFailing { summary: x }, State::BuildFailing { summary: y }) => same(
                x.as_str(),
                y.as_str(),
            ),
            (State::Error { message: x }, State::Error { message: y }) => same(
                x.as_str(),
                y.as_str(),
            ),
            (State::Exited, State::Exited) => true,
            (State::Archived { resumable: x }, State::Archived { resumable: y }) => *x == *y,
            _ => false,
        }
    }
}

impl vstd::std_specs::cmp::PartialEqSpecImpl for State {
    open spec fn obeys_eq_spec() -> bool {
        true
    }

    open spec fn eq_spec(&self, other: &State) -> bool {
        alike(*self, *other)
    }
}

impl Clone for State {
    fn clone(&self) -> (r: Self)
        ensures
            r == *self,
    {
        match self {
            State::Starting => State::Starting,
            State::Working => State::Working,
            State::YourTurn { since, reason } => State::YourTurn { since: *since, reason: *reason },
            State::BuildFailing { summary } => State::BuildFailing { summary: summary.clone() },
            State::Error { message } => State::Error { message: message.clone() },
            State::Exited => State::Exited,
            State::Archived { resumable } => State::Archived { resumable: *resumable },
        }
    }
}

impl State {
    /// Where a state sorts in the rail, the lowest first.
    pub open spec fn ranked(self) -> u8 {
        match self {
            State::BuildFailing { .. } => 0,
            State::Error { .. } => 1,
            State::YourTurn { reason: TurnReason::Ready, .. } => 3,
            State::YourTurn { .. } => 2,
            State::Working => 3,
            State::Starting => 3,
            State::Exited => 5,
            State::Archived { .. } => 6,
        }
    }

    pub open spec fn live(self) -> bool {
        !(self is Exited || self is Archived)
    }

    pub open spec fn busy(self) -> bool {
        self is Working || self is Starting
    }

    /// At its prompt, with no question on screen.
    pub open spec fn restartable(self) -> bool {
        match self {
            State::YourTurn { reason, .. } => reason != TurnReason::AskedAQuestion && reason
                != TurnReason::NeedsPermission,
            State::BuildFailing { .. } => true,
            State::Error { .. } => true,
            _ => false,
        }
    }

    pub open spec fn attention(self) -> bool {
        match self {
            State::YourTurn { reason, .. } => reason != TurnReason::Ready,
            State::BuildFailing { .. } => true,
            State::Error { .. } => true,
            _ => false,
        }
    }

    /// Rail ordering: a red build first, what is archived last.
    pub fn rank(&self) -> (r: u8)
        ensures
            r == self.ranked(),
    {
        match self {
            State::BuildFailing { .. } => 0,
            State::Error { .. } => 1,
            State::YourTurn { reason, .. } => {
                if *reason == TurnReason::Ready {
                    3
                } else {
                    2
                }
            },
            State::Working => 3,
            State::Starting => 3,
            State::Exited => 5,
            State::Archived { .. } => 6,
        }
    }

    /// Since when it waits for you, if it does.
    pub open spec fn waits_since(self) -> Option<Moment> {
        match self {
            State::YourTurn { since, .. } => Some(since),
            _ => None,
        }
    }

    pub fn waiting_since(&self) -> (r: Option<Moment>)
        ensures
            r == self.waits_since(),
    {
        match self {
            State::YourTurn { since, .. } => Some(*since),
            _ => None,
        }
    }

    /// Whether a respawn now costs nothing but the scrollback. A question on screen
    /// is not idle: a resume does not ask it again.
    pub fn safe_to_restart(&self) -> (r: bool)
        ensures
            r == self.restartable(),
    {
        match self {
            State::YourTurn { reason, .. } => *reason != TurnReason::AskedAQuestion && *reason
                != TurnReason::NeedsPermission,
            State::BuildFailing { .. } => true,
            State::Error { .. } => true,
            _ => false,
        }
    }

    pub fn is_live(&self) -> (r: bool)
        ensures
            r == self.live(),
    {
        !matches!(self, State::Exited | State::Archived { .. })
    }

    /// Whether an agent is actually doing something here, which is not the same as
    /// being live.
    pub fn is_busy(&self) -> (r: bool)
        ensures
            r == self.busy(),
    {
        matches!(self, State::Working | State::Starting)
    }

    /// Whether this is idle time worth surfacing as attention.
    pub fn wants_attention(&self) -> (r: bool)
        ensures
            r == self.attention(),
    {
        match self {
            State::YourTurn { reason, .. } => *reason != TurnReason::Ready,
            State::BuildFailing { .. } => true,
            State::Error { .. } => true,
            _ => false,
        }
    }
}

/// What interrupts nothing is at rest, and what is at rest is live: a state safe to
/// restart, or one that wants attention, is live and not busy, and a busy one is live.
pub proof fn rest_is_live_and_idle(s: State)
    ensures
        s.restartable() ==> s.live() && !s.busy(),
        s.attention() ==> s.live() && !s.busy(),
        s.busy() ==> s.live() && s.ranked() == 3,
{
}

/// Whatever wants attention sorts above everything that does not.
pub proof fn attention_sorts_first(a: State, b: State)
    requires
        a.attention(),
        !b.attention(),
    ensures
        a.ranked() < b.ranked(),
{
}

/// Every state is just one of three: an agent is at work in it, it rests, or it is over.
/// A session that rests can be restarted unless a question of it is on screen, and wants
/// attention unless nobody ever prompted it.
pub proof fn a_state_is_at_work_at_rest_or_over(s: State)
    ensures
        !s.live() <==> s is Exited || s is Archived,
        s.busy() <==> s is Starting || s is Working,
        s.restartable() <==> s.live() && !s.busy() && !(s matches State::YourTurn { reason, .. }
            && (reason == TurnReason::AskedAQuestion || reason == TurnReason::NeedsPermission)),
        s.attention() <==> s.live() && !s.busy() && !(s matches State::YourTurn { reason, .. }
            && reason == TurnReason::Ready),
{
}

/// The rail is read from the top: a red build, an error, somebody waiting on you, what works
/// or was never prompted, what ended, and what is archived.
pub proof fn the_rail_is_read_from_the_top(a: State, b: State)
    ensures
        a is BuildFailing && !(b is BuildFailing) ==> a.ranked() < b.ranked(),
        a is Error && !(b is BuildFailing) && !(b is Error) ==> a.ranked() < b.ranked(),
        (a matches State::YourTurn { reason, .. } && reason != TurnReason::Ready) && (b is Working
            || b is Starting || b is Exited || b is Archived) ==> a.ranked() < b.ranked(),
        (a is Working || a is Starting) && (b is Exited || b is Archived) ==> a.ranked()
            < b.ranked(),
        (a is Working || a is Starting || a matches State::YourTurn {
            reason: TurnReason::Ready,
            ..
        }) && (b is Working || b is Starting || b matches State::YourTurn {
            reason: TurnReason::Ready,
            ..
        }) ==> a.ranked() == b.ranked(),
        a is Exited && b is Archived ==> a.ranked() < b.ranked(),
{
}

/// The PR pass a session was started to run, when it was started as one.
#[derive(Debug)]
pub struct Pass {
    pub pr: u64,
    pub command: String,
}

impl Clone for Pass {
    fn clone(&self) -> (r: Self)
        ensures
            r == *self,
    {
        Pass { pr: self.pr, command: self.command.clone() }
    }
}

impl Pass {
    /// The run that rebases and force-pushes until the checks are green.
    pub const FIX_PR: &'static str = "fix-pr";

    /// The overlay review session: proposes, then carries out what you decide.
    pub const REVIEW: &'static str = "review";

    /// The pane pass over a PR's review threads.
    pub const HANDLE_REVIEW: &'static str = "handle-review";

    /// The tracker filer.
    pub const STORY: &'static str = "story";

    /// Does this run post proposals, and so need the credential for it?
    pub fn posts_proposals(command: &str) -> (r: bool)
        ensures
            r == (command@ == Pass::REVIEW@),
    {
        same(command, Pass::REVIEW)
    }
}

/// An outstanding "may this session reach that folder?" question.
#[derive(Debug)]
pub struct OutsideAsk {
    pub id: SessionId,
    pub path: String,
}

impl Clone for OutsideAsk {
    fn clone(&self) -> (r: Self)
        ensures
            r == *self,
    {
        OutsideAsk { id: self.id, path: self.path.clone() }
    }
}

/// How to rebuild a torn-down worktree so an archived session can be resumed.
#[derive(Debug)]
pub enum ArchiveState {
    Recoverable { name: String, branch: String, head_sha: String },
    /// The transcript is readable, the session cannot be continued.
    TranscriptOnly,
}

impl Clone for ArchiveState {
    fn clone(&self) -> (r: Self)
        ensures
            r == *self,
    {
        match self {
            ArchiveState::Recoverable { name, branch, head_sha } => ArchiveState::Recoverable {
                name: name.clone(),
                branch: branch.clone(),
                head_sha: head_sha.clone(),
            },
            ArchiveState::TranscriptOnly => ArchiveState::TranscriptOnly,
        }
    }
}

/// A terminal that the daemon holds for a session or a process: which one it is, and
/// whether its child was still running when it was last looked at.
#[derive(Debug, Clone, Copy, PartialEq, Eq, Structural)]
pub struct Pty {
    pub handle: u64,
    pub alive: bool,
}

pub struct Session {
    /// Also the id handed to the agent.
    pub id: SessionId,
    pub workspace: WorkspaceId,
    pub state: State,
    /// The PR pass this session runs, if it was started as one.
    pub pass: Option<Pass>,
    pub pty: Option<Pty>,
    pub pid: Option<u32>,
    pub cwd: String,
    pub title: Option<String>,
    /// A name you typed, which stands in for `title` for as long as it is set.
    pub name: Option<String>,
    pub transcript_path: Option<String>,
    pub archived_transcript: Option<String>,
    /// True once archiving has been settled.
    pub transcript_archived: bool,
    pub recovery: Option<ArchiveState>,
    pub created_at: Moment,
    pub state_since: Moment,
    /// The branch this conversation is about, as opposed to the tree it sits in.
    pub branch: Option<String>,
    /// Paths reported dirty since the tree was last measured.
    pub dirty_paths: Vec<String>,
    /// Tool calls blocked for reaching outside the worktree.
    pub boundary_violations: Vec<String>,
    pub last_reconcile: Option<Moment>,
    /// The agent's own credential, and only for asking.
    pub ask_token: String,
    /// What this session is blocked on, waiting for you to answer.
    pub interaction: Option<Interaction>,
    /// The folders you said this session may run git in, beyond its own worktree.
    pub outside_grants: Vec<String>,
    /// The ask that would grant one, and the folder it would grant.
    pub outside_ask: Option<OutsideAsk>,
    /// Whether the last turn was cut off rather than allowed to finish.
    pub interrupted: bool,
    /// The idle state a respawn under the same id comes back in.
    pub comes_back_as: Option<State>,
    /// Whether a turn has ever started in this session.
    pub had_a_turn: bool,
    /// The conversation this one was cut from, if it was forked.
    pub forked_from: Option<SessionId>,
    /// The session that created this one.
    pub spawned_by: Option<SessionId>,
    /// Whether that same act cut the worktree this session sits in.
    pub spawn_cut_worktree: bool,
    /// A one-off message for the agent, delivered at its next prompt.
    pub arrival_notice: Option<String>,
    /// Typed into the terminal once the agent has started.
    pub pending_prompt: Option<String>,
    /// Whether this session's exit starts a `fix-pr` run.
    pub fix_pr_on_exit: bool,
    /// Respawn this session once it is safe to interrupt.
    pub restart_queued: bool,
    /// The file this session's agent was executed from.
    pub agent_exe: Option<String>,
    /// Whether that file is no longer what a new spawn here would run.
    pub agent_stale: bool,
}

/// Whether a session record is one that nothing has happened to yet.
pub open spec fn is_fresh(s: Session, now: Moment) -> bool {
    &&& s.state is Starting
    &&& s.pty is None
    &&& s.pid is None
    &&& s.title is None
    &&& s.name is None
    &&& s.transcript_path is None
    &&& s.archived_transcript is None
    &&& !s.transcript_archived
    &&& s.recovery is None
    &&& s.created_at == now
    &&& s.state_since == now
    &&& s.branch is None
    &&& s.dirty_paths@.len() == 0
    &&& s.boundary_violations@.len() == 0
    &&& s.last_reconcile is None
    &&& s.interaction is None
    &&& s.outside_grants@.len() == 0
    &&& s.outside_ask is None
    &&& !s.interrupted
    &&& s.comes_back_as is None
    &&& !s.had_a_turn
    &&& s.forked_from is None
    &&& s.spawned_by is None
    &&& !s.spawn_cut_worktree
    &&& s.arrival_notice is None
    &&& s.pending_prompt is None
    &&& !s.fix_pr_on_exit
    &&& !s.restart_queued
    &&& s.agent_exe is None
    &&& !s.agent_stale
}

/// A session that starts waiting for you, or goes on where it already was.
pub open spec fn put_to_you(s: Session, reason: TurnReason, now: Moment) -> Session {
    if s.state is YourTurn {
        s
    } else {
        entered(s, State::YourTurn { since: now, reason }, now)
    }
}

/// A session waits from when it first came to wait, and for what it first waited for: another
/// notice about the same turn changes nothing.
pub proof fn a_wait_is_counted_from_its_start(
    s: Session,
    reason: TurnReason,
    now: Moment,
    other: TurnReason,
    later: Moment,
)
    ensures
        s.state is YourTurn ==> put_to_you(s, reason, now) == s,
        !(s.state is YourTurn) ==> put_to_you(s, reason, now).state == (State::YourTurn {
            since: now,
            reason,
        }),
        put_to_you(put_to_you(s, reason, now), other, later) == put_to_you(s, reason, now),
{
}

/// What entering a state makes of a session.
///
/// Working marks a turn in flight and that there ever was one. Only a turn that ended
/// clears the first mark, and nothing clears the second. The clock restarts only where
/// the state is another one.
pub open spec fn entered(s: Session, state: State, now: Moment) -> Session {
    Session {
        interrupted: match state {
            State::Working => true,
            State::YourTurn { reason, .. } => if reason == TurnReason::Ready || reason
                == TurnReason::Interrupted {
                s.interrupted
            } else {
                false
            },
            _ => s.interrupted,
        },
        had_a_turn: s.had_a_turn || state is Working,
        state: if alike(s.state, state) {
            s.state
        } else {
            state
        },
        state_since: if alike(s.state, state) {
            s.state_since
        } else {
            now
        },
        ..s
    }
}

impl Session {
    /// A session's record as it starts, with the ask token minted for it.
    pub fn new(
        id: SessionId,
        workspace: WorkspaceId,
        cwd: String,
        pass: Option<Pass>,
        now: Moment,
        ask_token: String,
    ) -> (r: Self)
        ensures
            r.id == id,
            r.workspace == workspace,
            r.cwd == cwd,
            r.pass == pass,
            r.ask_token == ask_token,
            is_fresh(r, now),
    {
        Session {
            id,
            workspace,
            state: State::Starting,
            pass,
            pty: None,
            pid: None,
            cwd,
            title: None,
            name: None,
            transcript_path: None,
            archived_transcript: None,
            transcript_archived: false,
            recovery: None,
            created_at: now,
            state_since: now,
            branch: None,
            dirty_paths: Vec::new(),
            boundary_violations: Vec::new(),
            last_reconcile: None,
            ask_token,
            interaction: None,
            outside_grants: Vec::new(),
            outside_ask: None,
            interrupted: false,
            comes_back_as: None,
            had_a_turn: false,
            forked_from: None,
            spawned_by: None,
            spawn_cut_worktree: false,
            arrival_notice: None,
            pending_prompt: None,
            fix_pr_on_exit: false,
            restart_queued: false,
            agent_exe: None,
            agent_stale: false,
        }
    }

    /// What to call this session: the name you gave it, else the agent's own title.
    pub open spec fn called(self) -> Option<Seq<char>> {
        if self.name is Some {
            opt_text(self.name)
        } else {
            opt_text(self.title)
        }
    }

    /// What to call this session: the name you gave it, else the agent's own title.
    pub fn label(&self) -> (r: Option<&str>)
        ensures
            opt_str(r) == self.called(),
    {
        match &self.name {
            Some(n) => Some(n.as_str()),
            None => match &self.title {
                Some(t) => Some(t.as_str()),
                None => None,
            },
        }
    }

    /// Whether some grant covers a path.
    pub open spec fn may_reach(self, path: Seq<char>) -> bool {
        exists|i: int|
            0 <= i < self.outside_grants@.len() && is_under(
                path,
                #[trigger] self.outside_grants@[i]@,
            )
    }

    /// May this session run git in `path`, because you said so? A grant covers the
    /// folder it names and everything under it.
    pub fn outside_granted(&self, path: &str) -> (r: bool)
        ensures
            r == self.may_reach(path@),
    {
        let mut i: usize = 0;
        while i < self.outside_grants.len()
            invariant
                i <= self.outside_grants@.len(),
                forall|k: int|
                    0 <= k < i ==> !is_under(path@, #[trigger] self.outside_grants@[k]@),
            decreases self.outside_grants@.len() - i,
        {
            if under(path, self.outside_grants[i].as_str()) {
                return true;
            }
            i += 1;
        }
        false
    }

    /// Whether there is a conversation to continue, and somewhere to continue it in.
    pub open spec fn can_resume(self) -> bool {
        self.had_a_turn && self.recovery != Some(ArchiveState::TranscriptOnly)
    }

    /// Whether resuming this session would find a conversation to continue.
    pub fn resumable(&self) -> (r: bool)
        ensures
            r == self.can_resume(),
    {
        self.had_a_turn && !matches!(self.recovery, Some(ArchiveState::TranscriptOnly))
    }

    pub fn set_state(&mut self, state: State, now: Moment)
        ensures
            *final(self) == entered(*old(self), state, now),
    {
        match &state {
            State::Working => {
                self.interrupted = true;
                self.had_a_turn = true;
            },
            State::YourTurn { reason, .. } => {
                if *reason != TurnReason::Ready && *reason != TurnReason::Interrupted {
                    self.interrupted = false;
                }
            },
            _ => {},
        }
        if !(self.state == state) {
            self.state = state;
            self.state_since = now;
        }
    }

    /// Start waiting for you, unless this session already is: a second notice about
    /// one idle turn must not restart the wait clock.
    pub fn wait_for(&mut self, reason: TurnReason, now: Moment)
        ensures
            *final(self) == put_to_you(*old(self), reason, now),
    {
        if matches!(self.state, State::YourTurn { .. }) {
            return;
        }
        self.set_state(State::YourTurn { since: now, reason }, now);
    }
}

/// The mark that a session ever had a turn is never taken back, and only working sets
/// it.
pub proof fn a_turn_once_had_stays_had(s: Session, state: State, now: Moment)
    ensures
        entered(s, state, now).had_a_turn == (s.had_a_turn || state is Working),
        s.can_resume() ==> entered(s, state, now).can_resume(),
{
}

/// A turn in flight stays owed until a turn ends: no later state but one that waits
/// on you after a finished, asking or refused turn takes the mark back.
pub proof fn only_an_ended_turn_clears_the_mark(s: Session, state: State, now: Moment)
    ensures
        s.interrupted && !entered(s, state, now).interrupted ==> (state matches State::YourTurn {
            reason,
            ..
        } && reason != TurnReason::Ready && reason != TurnReason::Interrupted),
        entered(s, State::Working, now).interrupted,
{
}

/// Entering a state twice is entering it once: the second time changes neither the
/// state nor the clock.
pub proof fn entering_again_keeps_the_clock(s: Session, state: State, now: Moment, later: Moment)
    ensures
        entered(entered(s, state, now), state, later) == entered(s, state, now),
{
}

/// A session is in the state it entered, and nothing but the state, its clock and the two
/// marks changes. A state that is another one starts the clock.
pub proof fn entering_a_state_changes_only_the_state(s: Session, state: State, now: Moment)
    ensures
        alike(entered(s, state, now).state, state),
        !alike(s.state, state) ==> entered(s, state, now).state == state && entered(
            s,
            state,
            now,
        ).state_since == now,
        alike(s.state, state) ==> entered(s, state, now).state_since == s.state_since,
        entered(s, state, now) == (Session {
            state: entered(s, state, now).state,
            state_since: entered(s, state, now).state_since,
            interrupted: entered(s, state, now).interrupted,
            had_a_turn: entered(s, state, now).had_a_turn,
            ..s
        }),
        (state matches State::YourTurn { reason, .. } && (reason == TurnReason::TurnComplete
            || reason == TurnReason::AskedAQuestion || reason == TurnReason::NeedsPermission))
            ==> !entered(s, state, now).interrupted,
        !(state is Working) && !(state is YourTurn) ==> entered(s, state, now).interrupted
            == s.interrupted,
{
}

/// Two states are the same where they are of one kind and say the same, and a state is the
/// same as itself.
pub proof fn a_state_is_like_itself(a: State, b: State)
    ensures
        alike(a, a),
        alike(a, b) == alike(b, a),
        alike(a, b) ==> a.live() == b.live() && a.busy() == b.busy() && a.ranked() == b.ranked(),
        a is Working && !(b is Working) ==> !alike(a, b),
        a is Starting && !(b is Starting) ==> !alike(a, b),
        a is YourTurn && b is YourTurn && alike(a, b) ==> a == b,
{
}

/// A session goes by the name you gave it wherever you gave it one, and else by its title.
pub proof fn a_name_stands_in_for_the_title(s: Session)
    ensures
        s.name is Some ==> s.called() == Some(s.name->Some_0@),
        s.name is None && s.title is Some ==> s.called() == Some(s.title->Some_0@),
        s.name is None && s.title is None ==> s.called() is None,
{
}

/// Whatever had a turn can be resumed, unless all that is left of it is its transcript.
pub proof fn what_had_a_turn_can_be_resumed(s: Session)
    ensures
        s.had_a_turn && s.recovery is None ==> s.can_resume(),
        s.had_a_turn && (s.recovery matches Some(ArchiveState::Recoverable { .. }))
            ==> s.can_resume(),
        !s.had_a_turn || (s.recovery matches Some(ArchiveState::TranscriptOnly)) ==> !s.can_resume(),
{
}

/// Nothing reaches outside without a grant, and a grant reaches no further than its folder.
pub proof fn without_a_grant_nothing_is_reached(s: Session, path: Seq<char>)
    requires
        forall|i: int|
            0 <= i < s.outside_grants@.len() ==> !crate::paths::components(
                (#[trigger] s.outside_grants@[i])@,
            ).is_prefix_of(crate::paths::components(path)),
    ensures
        !s.may_reach(path),
{
}

/// A grant of a folder reaches the folder itself, and whatever lies under what it
/// reaches.
pub proof fn a_grant_covers_what_is_under_it(s: Session, i: int, path: Seq<char>, below: Seq<char>)
    requires
        0 <= i < s.outside_grants@.len(),
    ensures
        s.may_reach(s.outside_grants@[i]@),
        s.may_reach(path) && is_under(below, path) ==> s.may_reach(below),
{
    assert(is_under(s.outside_grants@[i]@, s.outside_grants@[i]@)) by {
        let c = crate::paths::components(s.outside_grants@[i]@);
        assert(c.subrange(0, c.len() as int) =~= c);
    }
    if s.may_reach(path) && is_under(below, path) {
        let k = choose|k: int|
            0 <= k < s.outside_grants@.len() && is_under(path, #[trigger] s.outside_grants@[k]@);
        crate::paths::under_is_transitive(below, path, s.outside_grants@[k]@);
    }
}

/// A refusal the daemon knows the kind of: nothing here by that name, or here but
/// held.
#[derive(Debug)]
pub enum Refusal {
    Missing(String),
    Busy(String),
}

impl Refusal {
    /// The sentence it is reported with.
    pub open spec fn said(self) -> Seq<char> {
        match self {
            Refusal::Missing(what) => what@,
            Refusal::Busy(what) => what@,
        }
    }

    /// The sentence it is reported with.
    pub fn text(&self) -> (r: &str)
        ensures
            r@ == self.said(),
    {
        match self {
            Refusal::Missing(what) => what.as_str(),
            Refusal::Busy(what) => what.as_str(),
        }
    }
}

// ---------------------------------------------------------------------------
// Interaction
// ---------------------------------------------------------------------------

/// A question a running session is blocked on.
#[derive(Debug)]
pub struct Interaction {
    pub id: SessionId,
    /// What the agent is working on.
    pub thread_id: Option<String>,
    pub question: String,
    /// Optional context: a diff, a file, the words of a comment.
    pub detail: Option<String>,
    /// What you may answer. Never empty.
    pub options: Vec<InteractionOption>,
    pub asked_at: Moment,
    /// Set when you answer, which is what releases the agent's poll.
    pub answer: Option<String>,
    /// The words you typed, when the option you picked asked for some.
    pub answer_text: Option<String>,
}

#[derive(Debug)]
pub struct InteractionOption {
    /// What comes back to the agent.
    pub value: String,
    pub label: String,
    pub sub: String,
    /// This option wants words with it.
    pub free: bool,
}

// ---------------------------------------------------------------------------
// Process
// ---------------------------------------------------------------------------

#[derive(Debug)]
pub enum Health {
    Starting,
    /// Nothing in the output says otherwise.
    Fine,
    Failing { summary: String },
    Dead,
}

/// Whether two healths are the same, their texts compared as texts.
pub open spec fn same_health(a: Health, b: Health) -> bool {
    match (a, b) {
        (Health::Starting, Health::Starting) => true,
        (Health::Fine, Health::Fine) => true,
        (Health::Failing { summary: x }, Health::Failing { summary: y }) => x@ == y@,
        (Health::Dead, Health::Dead) => true,
        _ => false,
    }
}

impl PartialEq for Health {
    fn eq(&self, other: &Health) -> (r: bool) {
        match (self, other) {
            (Health::Starting, Health::Starting) => true,
            (Health::Fine, Health::Fine) => true,
            (Health::Failing { summary: x }, Health::Failing { summary: y }) => same(
                x.as_str(),
                y.as_str(),
            ),
            (Health::Dead, Health::Dead) => true,
            _ => false,
        }
    }
}

impl vstd::std_specs::cmp::PartialEqSpecImpl for Health {
    open spec fn obeys_eq_spec() -> bool {
        true
    }

    open spec fn eq_spec(&self, other: &Health) -> bool {
        same_health(*self, *other)
    }
}

impl Clone for Health {
    fn clone(&self) -> (r: Self)
        ensures
            r == *self,
    {
        match self {
            Health::Starting => Health::Starting,
            Health::Fine => Health::Fine,
            Health::Failing { summary } => Health::Failing { summary: summary.clone() },
            Health::Dead => Health::Dead,
        }
    }
}

#[derive(Debug)]
pub enum ProcKind {
    /// Declared per workspace in the configuration. Health is read from its output.
    Managed { command: Vec<String> },
    /// A plain shell opened on demand.
    Shell { exit_code: Option<i32> },
}

/// Any terminal owned by a workspace that is not an agent's.
pub struct Process {
    pub id: String,
    pub name: String,
    pub kind: ProcKind,
    pub health: Health,
    /// Always the owning workspace's path.
    pub cwd: String,
    pub pty: Option<Pty>,
}

impl Process {
    pub fn is_managed(&self) -> (r: bool)
        ensures
            r == (self.kind is Managed),
    {
        matches!(self.kind, ProcKind::Managed { .. })
    }
}

// ---------------------------------------------------------------------------
// What an update looks like
// ---------------------------------------------------------------------------

/// A newer agent build than the one installed.
#[derive(Debug)]
pub struct AgentUpdate {
    /// The tool to upgrade.
    pub tool: String,
    pub current: String,
    pub latest: String,
}

/// An upgrade the daemon is running, or the failure it left behind.
#[derive(Debug)]
pub struct UpgradeRun {
    /// The version being installed.
    pub to: String,
    pub running: bool,
    /// The end of the output, for a run that failed.
    pub tail: String,
}

/// A release newer than what is running.
#[derive(Debug)]
pub struct UpdateInfo {
    pub current: String,
    pub latest: String,
    pub url: String,
    /// The tool that installed this binary, when one did.
    pub tool: Option<String>,
    /// What the bar may offer.
    pub offer: Offer,
}

/// What the update bar may offer for this install.
#[derive(Debug)]
pub enum Offer {
    /// A button, and what pressing it runs.
    Button { command: String },
    /// No button: the command to run in a terminal.
    Advice { command: String },
    /// Only the release link.
    LinkOnly,
}

// ---------------------------------------------------------------------------
// A PR the daemon is fixing
// ---------------------------------------------------------------------------

/// Per-PR automation state.
#[derive(Debug)]
pub enum PrAutomation {
    Running { session: SessionId, started: Moment },
    /// The run stopped without turning the PR green. It wants you.
    Exhausted {
        /// The head this exhaustion is measured against, once anything knows it.
        at_head: Option<String>,
        at: Moment,
    },
}

pub struct AutomationStore {
    pub by_pr: HashMap<u64, PrAutomation>,
}

/// What a poll that saw `head` makes of a PR's record: an exhaustion measured against
/// another head is gone, one measured against none takes this one, and anything else
/// stays as it is.
pub open spec fn reconciled(was: Option<PrAutomation>, head: Seq<char>, now: Option<PrAutomation>)
    -> bool {
    match was {
        Some(PrAutomation::Exhausted { at_head: Some(h), at }) => if h@ == head {
            now == was
        } else {
            now is None
        },
        Some(PrAutomation::Exhausted { at_head: None, at }) => now matches Some(
            PrAutomation::Exhausted { at_head: Some(k), at: t },
        ) && k@ == head && t == at,
        _ => now == was,
    }
}

/// Whether such a poll changes the record.
pub open spec fn stands_corrected(was: Option<PrAutomation>, head: Seq<char>) -> bool {
    was matches Some(PrAutomation::Exhausted { at_head, .. }) && opt_text(at_head) != Some(head)
}

pub open spec fn entry(m: Map<u64, PrAutomation>, pr: u64) -> Option<PrAutomation> {
    if m.contains_key(pr) {
        Some(m[pr])
    } else {
        None
    }
}

impl Default for AutomationStore {
    fn default() -> (r: Self)
        ensures
            r.by_pr@ == Map::<u64, PrAutomation>::empty(),
    {
        AutomationStore::new()
    }
}

impl AutomationStore {
    pub fn new() -> (r: Self)
        ensures
            r.by_pr@ == Map::<u64, PrAutomation>::empty(),
    {
        AutomationStore { by_pr: HashMap::new() }
    }

    pub fn get(&self, pr: u64) -> (r: Option<&PrAutomation>)
        ensures
            entry(self.by_pr@, pr) == match r {
                Some(a) => Some(*a),
                None => None,
            },
    {
        self.by_pr.get(&pr)
    }

    /// Exhaustion clears when the head moves while no run is alive. A record with no
    /// head yet adopts this one. Returns whether anything changed.
    pub fn reconcile_head(&mut self, pr: u64, head: Option<&str>) -> (r: bool)
        ensures
            forall|k: u64|
                k != pr ==> #[trigger] entry(final(self).by_pr@, k) == entry(old(self).by_pr@, k),
            match head {
                None => !r && final(self).by_pr@ == old(self).by_pr@,
                Some(h) => r == stands_corrected(entry(old(self).by_pr@, pr), h@) && reconciled(
                    entry(old(self).by_pr@, pr),
                    h@,
                    entry(final(self).by_pr@, pr),
                ),
            },
    {
        let head: &str = match head {
            Some(h) => h,
            None => {
                return false;
            },
        };
        let adopt: Option<Moment> = match self.by_pr.get(&pr) {
            Some(PrAutomation::Exhausted { at_head: Some(h), .. }) => {
                if same(h.as_str(), head) {
                    return false;
                }
                None
            },
            Some(PrAutomation::Exhausted { at_head: None, at }) => Some(*at),
            _ => {
                return false;
            },
        };
        match adopt {
            None => {
                let _ = self.by_pr.remove(&pr);
            },
            Some(at) => {
                let _ = self.by_pr.insert(
                    pr,
                    PrAutomation::Exhausted { at_head: Some(head.to_owned()), at },
                );
            },
        }
        true
    }
}

/// A second poll that sees the same head changes nothing, and a record of a run in
/// flight is never touched by one.
pub proof fn a_poll_settles_at_once(
    was: Option<PrAutomation>,
    head: Seq<char>,
    now: Option<PrAutomation>,
)
    requires
        reconciled(was, head, now),
    ensures
        !stands_corrected(now, head),
        reconciled(now, head, now),
        was matches Some(PrAutomation::Running { .. }) ==> now == was,
        !stands_corrected(was, head) ==> now == was,
{
}

/// An exhaustion clears when the head moves and not before: one that knows no head yet takes
/// the first that is seen, keeps standing while that is the head, and is gone once another
/// is; and when it was exhausted is never forgotten.
pub proof fn an_exhaustion_clears_when_the_head_moves(
    was: PrAutomation,
    first: Seq<char>,
    second: Seq<char>,
    mid: Option<PrAutomation>,
    now: Option<PrAutomation>,
)
    requires
        was matches PrAutomation::Exhausted { at_head, .. } && at_head is None,
        reconciled(Some(was), first, mid),
        reconciled(mid, second, now),
    ensures
        stands_corrected(Some(was), first),
        mid matches Some(PrAutomation::Exhausted { at, .. }) && at == was->at,
        stands_corrected(mid, second) <==> first != second,
        first != second ==> now is None,
        first == second ==> now == mid,
{
}

/// A PR with no record, or with a run in flight, is left alone by every poll.
pub proof fn a_poll_leaves_a_run_alone(
    was: Option<PrAutomation>,
    head: Seq<char>,
    now: Option<PrAutomation>,
)
    requires
        was is None || was matches Some(PrAutomation::Running { .. }),
        reconciled(was, head, now),
    ensures
        now == was,
        !stands_corrected(was, head),
{
}

/// Only what waits for you has waited, and it has since its turn came.
pub proof fn only_what_waits_has_waited(state: State, since: Moment, reason: TurnReason)
    ensures
        state.waits_since() is Some <==> state is YourTurn,
        (State::YourTurn { since, reason }).waits_since() == Some(since),
{
}

/// Each kind of run goes by its own command, and by the name of the skill that it runs.
pub proof fn every_run_goes_by_its_own_command()
    ensures
        Pass::FIX_PR@ == "fix-pr"@,
        Pass::REVIEW@ == "review"@,
        Pass::HANDLE_REVIEW@ == "handle-review"@,
        Pass::STORY@ == "story"@,
        Pass::FIX_PR@ != Pass::REVIEW@ && Pass::FIX_PR@ != Pass::HANDLE_REVIEW@ && Pass::FIX_PR@
            != Pass::STORY@,
        Pass::REVIEW@ != Pass::HANDLE_REVIEW@ && Pass::REVIEW@ != Pass::STORY@,
        Pass::HANDLE_REVIEW@ != Pass::STORY@,
{
    reveal_strlit("fix-pr");
    reveal_strlit("review");
    reveal_strlit("handle-review");
    reveal_strlit("story");
    assert("fix-pr"@[0] == 'f' && "review"@[0] == 'r' && "handle-review"@[0] == 'h' && "story"@[0]
        == 's');
}

} // verus!
