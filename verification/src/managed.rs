//! Managed processes: the dev servers and watchers a checkout declares.

use vstd::prelude::*;
use vstd::string::*;
use crate::api::{refuse, ApiError, Said};
use crate::ids::{hex, lemma_hex_apart, simple_text, sixteens, SessionId};
use crate::model::{
    entered, same_health, Health, Moment, ProcKind, Process, Pty, Session, State, TurnReason,
};
use crate::sessions::same_ids;
use crate::text::{cat2, cat3, same};

verus! {

/// A managed process as the configuration declares it.
pub struct ManagedSpec {
    pub name: String,
    pub command: Vec<String>,
    /// What stops it, where killing its terminal does not.
    pub stop_command: Vec<String>,
}

/// What stopping a process does.
#[derive(Debug, Clone, Copy, PartialEq, Eq, Structural)]
pub enum Stop {
    /// Run its own stop command.
    RunStopCommand,
    /// Kill its terminal, whatever the stop command came to.
    Kill,
}

/// What stopping a process does, by whether it has a stop command that can be run.
pub open spec fn stopping(has_command: bool) -> Seq<Stop> {
    if has_command {
        seq![Stop::RunStopCommand, Stop::Kill]
    } else {
        seq![Stop::Kill]
    }
}

/// Whatever is stopped is killed in the end, and its own stop command is run before that
/// wherever it has one.
pub proof fn what_is_stopped_is_killed_last(has_command: bool)
    ensures
        stopping(has_command).last() == Stop::Kill,
        stopping(has_command).contains(Stop::RunStopCommand) <==> has_command,
        has_command ==> stopping(has_command)[0] == Stop::RunStopCommand,
        stopping(has_command).no_duplicates(),
{
    if has_command {
        assert(stopping(true)[0] == Stop::RunStopCommand);
    }
}

/// Whether a process has a stop command that can be run.
pub open spec fn has_command(spec: ManagedSpec, known: bool) -> bool {
    known && spec.stop_command@.len() > 0
}

/// A declared stop command is run wherever there is a workspace to run it in.
pub proof fn a_declared_stop_command_is_run(spec: ManagedSpec, known: bool)
    ensures
        has_command(spec, known) <==> known && spec.stop_command@.len() != 0,
{
}

/// Stop a managed process: its stop command first, where it declares one and its
/// workspace is known, then the terminal.
pub fn stop_managed(spec: Option<&ManagedSpec>, known: bool) -> (r: Vec<Stop>)
    ensures
        r@ == stopping(spec is Some && has_command(*spec->Some_0, known)),
{
    let mut out: Vec<Stop> = Vec::new();
    match spec {
        Some(s) => {
            if known && s.stop_command.len() > 0 {
                out.push(Stop::RunStopCommand);
            }
        },
        None => {},
    }
    out.push(Stop::Kill);
    out
}

/// What an unknown workspace is answered.
pub fn known_workspace(workspace: &str, known: bool) -> (r: Result<(), ApiError>)
    ensures
        if known {
            r is Ok
        } else {
            r is Err && r->Err_0@ == Said::Failed("unknown workspace "@ + workspace@)
        },
{
    if known {
        Ok(())
    } else {
        Err(refuse(cat2("unknown workspace ", workspace)))
    }
}

// ---------------------------------------------------------------------------
// A workspace's processes
// ---------------------------------------------------------------------------

/// A managed process goes by its workspace and its name.
pub open spec fn process_id(workspace: Seq<char>, name: Seq<char>) -> Seq<char> {
    workspace + ":"@ + name
}

/// The processes of a list but for those under an id.
pub open spec fn others(list: Seq<Process>, id: Seq<char>) -> Seq<Process>
    decreases list.len(),
{
    if list.len() == 0 {
        list
    } else if list.last().id@ == id {
        others(list.drop_last(), id)
    } else {
        others(list.drop_last(), id).push(list.last())
    }
}

/// The terminals of the processes under an id.
pub open spec fn terminals(list: Seq<Process>, id: Seq<char>) -> Seq<Pty>
    decreases list.len(),
{
    if list.len() == 0 {
        Seq::empty()
    } else {
        let front = terminals(list.drop_last(), id);
        match list.last().pty {
            Some(p) => if list.last().id@ == id {
                front.push(p)
            } else {
                front
            },
            None => front,
        }
    }
}

/// What is taken out goes whole: no process under the id is left, every other one stays in
/// its order, and each terminal that was under it is handed back.
pub proof fn what_is_taken_out_goes_whole(list: Seq<Process>, id: Seq<char>, i: int)
    requires
        0 <= i < list.len(),
    ensures
        others(list, id) == list.filter(|p: Process| p.id@ != id),
        list[i].id@ != id ==> others(list, id).contains(list[i]),
        list[i].id@ == id ==> (list[i].pty matches Some(t) ==> terminals(list, id).contains(t)),
        forall|k: int| 0 <= k < others(list, id).len() ==> (#[trigger] others(list, id)[k]).id@ != id,
    decreases list.len(),
{
    reveal(Seq::filter);
    let front = list.drop_last();
    lemma_others_filter(front, id);
    let (all, some) = (others(list, id), others(front, id));
    let (ts, us) = (terminals(list, id), terminals(front, id));
    if i < front.len() {
        what_is_taken_out_goes_whole(front, id, i);
        assert(front[i] == list[i]);
        if list[i].id@ != id {
            let k = choose|k: int| 0 <= k < some.len() && some[k] == list[i];
            assert(all[k] == list[i]);
        } else if let Some(t) = list[i].pty {
            let k = choose|k: int| 0 <= k < us.len() && us[k] == t;
            assert(ts[k] == t);
        }
    } else {
        if list[i].id@ != id {
            assert(all[some.len() as int] == list[i]);
        } else if let Some(t) = list[i].pty {
            assert(ts[us.len() as int] == t);
        }
    }
    assert forall|k: int| 0 <= k < all.len() implies (#[trigger] all[k]).id@ != id by {
        if k < some.len() {
            assert(all[k] == some[k]);
        }
    }
}

proof fn lemma_others_filter(list: Seq<Process>, id: Seq<char>)
    ensures
        others(list, id) == list.filter(|p: Process| p.id@ != id),
        forall|k: int| 0 <= k < others(list, id).len() ==> (#[trigger] others(list, id)[k]).id@ != id,
    decreases list.len(),
{
    reveal(Seq::filter);
    if list.len() > 0 {
        lemma_others_filter(list.drop_last(), id);
        let (all, some) = (others(list, id), others(list.drop_last(), id));
        assert forall|k: int| 0 <= k < all.len() implies (#[trigger] all[k]).id@ != id by {
            if k < some.len() {
                assert(all[k] == some[k]);
            }
        }
    }
}

/// Take the processes under an id out of a list, and hand back the terminals to kill:
/// a record that is dropped would leave its child running with nothing pointing at it.
pub(crate) fn take_out(list: &mut Vec<Process>, id: &str) -> (r: Vec<Pty>)
    ensures
        final(list)@ == others(old(list)@, id@),
        r@ == terminals(old(list)@, id@),
{
    let ghost all = list@;
    let mut kill: Vec<Pty> = Vec::new();
    let ghost mut gone: int = 0;
    let mut i: usize = 0;
    proof {
        assert(all.take(0) =~= Seq::<Process>::empty());
        assert(others(all.take(0), id@) + all.skip(0) =~= all);
    }
    while i < list.len()
        invariant
            0 <= gone,
            i + gone <= all.len(),
            list@ == others(all.take(i + gone), id@) + all.skip(i + gone),
            others(all.take(i + gone), id@).len() == i,
            kill@ == terminals(all.take(i + gone), id@),
        decreases list@.len() - i,
    {
        let ghost m = i + gone;
        proof {
            assert(all.take(m + 1).drop_last() =~= all.take(m));
            assert(all.take(m + 1).last() == all[m]);
            assert(list@[i as int] == all[m]);
        }
        match list[i].pty {
            Some(p) => {
                if same(list[i].id.as_str(), id) {
                    kill.push(p);
                }
            },
            None => {},
        }
        if same(list[i].id.as_str(), id) {
            let _ = list.remove(i);
            proof {
                assert(list@ =~= others(all.take(m + 1), id@) + all.skip(m + 1));
                gone = gone + 1;
            }
        } else {
            proof {
                assert(list@ =~= others(all.take(m + 1), id@) + all.skip(m + 1));
            }
            i += 1;
        }
    }
    proof {
        assert(all.take(all.len() as int) =~= all);
        assert(list@ =~= others(all, id@));
    }
    kill
}

/// The record of a managed process that was just started.
pub open spec fn is_started(p: Process, workspace: Seq<char>, spec: ManagedSpec, cwd: Seq<char>)
    -> bool {
    &&& p.id@ == process_id(workspace, spec.name@)
    &&& p.name == spec.name
    &&& p.kind is Managed
    &&& p.kind->command@ == spec.command@
    &&& p.health == Health::Starting
    &&& p.cwd@ == cwd
}

/// A process that was just started goes by its workspace and its name, runs the command that
/// is declared under that name, and is not yet said to be well.
pub proof fn a_started_process_is_what_was_declared(
    p: Process,
    workspace: Seq<char>,
    spec: ManagedSpec,
    cwd: Seq<char>,
)
    requires
        is_started(p, workspace, spec, cwd),
    ensures
        p.id@ == workspace + ":"@ + spec.name@,
        p.name@ == spec.name@,
        p.kind matches ProcKind::Managed { command } && command@ == spec.command@,
        p.health is Starting,
        p.cwd@ == cwd,
{
}

/// No two processes of a workspace go by one id: neither two names, nor two shells.
pub proof fn every_process_has_an_id_of_its_own(
    workspace: Seq<char>,
    a: Seq<char>,
    b: Seq<char>,
    x: SessionId,
    y: SessionId,
)
    ensures
        process_id(workspace, a) == process_id(workspace, b) ==> a == b,
        shell_id(workspace, x) == shell_id(workspace, y) ==> x == y,
        (workspace + ":"@).is_prefix_of(process_id(workspace, a)),
        (workspace + ":shell:"@).is_prefix_of(shell_id(workspace, x)),
{
    let (p, q) = (process_id(workspace, a), process_id(workspace, b));
    let n = (workspace + ":"@).len() as int;
    assert(p.subrange(0, n) =~= workspace + ":"@);
    assert(p.skip(n) =~= a);
    assert(q.skip(n) =~= b);
    let (s, t) = (shell_id(workspace, x), shell_id(workspace, y));
    let m = (workspace + ":shell:"@).len() as int;
    assert(s.subrange(0, m) =~= workspace + ":shell:"@);
    assert(s.skip(m) =~= hex(x as nat, 32));
    assert(t.skip(m) =~= hex(y as nat, 32));
    if s == t {
        reveal_with_fuel(sixteens, 33);
        assert(sixteens(32) == 0x1_0000_0000_0000_0000_0000_0000_0000_0000);
        lemma_hex_apart(x as nat, y as nat, 32);
    }
}

/// Record a managed process that was just started, in place of what ran under its name,
/// whose terminals are to be killed.
pub fn start_managed(
    processes: &mut Vec<Process>,
    workspace: &str,
    spec: &ManagedSpec,
    cwd: &str,
    pty: Pty,
) -> (r: (String, Vec<Pty>))
    ensures
        r.0@ == process_id(workspace@, spec.name@),
        r.1@ == terminals(old(processes)@, r.0@),
        ({
            let kept = others(old(processes)@, r.0@);
            &&& final(processes)@.len() == kept.len() + 1
            &&& final(processes)@.drop_last() == kept
            &&& is_started(final(processes)@.last(), workspace@, *spec, cwd@)
            &&& final(processes)@.last().pty == Some(pty)
        }),
{
    let id: String = cat3(workspace, ":", spec.name.as_str());
    let kill: Vec<Pty> = take_out(processes, id.as_str());
    let ghost kept = processes@;
    let process: Process = Process {
        id: id.clone(),
        name: spec.name.clone(),
        kind: ProcKind::Managed { command: crate::text::copies(&spec.command) },
        health: Health::Starting,
        cwd: cwd.to_owned(),
        pty: Some(pty),
    };
    processes.push(process);
    proof {
        assert(processes@.drop_last() =~= kept);
    }
    (id, kill)
}

/// The id of a shell: its workspace, and a number of its own.
pub open spec fn shell_id(workspace: Seq<char>, unique: SessionId) -> Seq<char> {
    workspace + ":shell:"@ + hex(unique as nat, 32)
}

/// Record a shell that was just opened in a workspace.
pub fn spawn_shell(
    processes: &mut Vec<Process>,
    workspace: &str,
    cwd: &str,
    pty: Pty,
    unique: SessionId,
) -> (r: String)
    ensures
        r@ == shell_id(workspace@, unique),
        final(processes)@.len() == old(processes)@.len() + 1,
        final(processes)@.drop_last() == old(processes)@,
        final(processes)@.last().id@ == r@,
        final(processes)@.last().name@ == "shell"@,
        final(processes)@.last().kind == (ProcKind::Shell { exit_code: None }),
        final(processes)@.last().health == Health::Fine,
        final(processes)@.last().cwd@ == cwd@,
        final(processes)@.last().pty == Some(pty),
{
    let n: String = simple_text(unique);
    let id: String = cat3(workspace, ":shell:", n.as_str());
    let process: Process = Process {
        id: id.clone(),
        name: "shell".to_owned(),
        kind: ProcKind::Shell { exit_code: None },
        health: Health::Fine,
        cwd: cwd.to_owned(),
        pty: Some(pty),
    };
    processes.push(process);
    proof {
        assert(processes@.drop_last() =~= old(processes)@);
    }
    id
}

/// Where the first process under an id stands, or the list's length.
pub open spec fn process_at(list: Seq<Process>, id: Seq<char>) -> int
    decreases list.len(),
{
    if list.len() == 0 || list[0].id@ == id {
        0
    } else {
        1 + process_at(list.skip(1), id)
    }
}

proof fn lemma_process_at(list: Seq<Process>, id: Seq<char>, i: int)
    requires
        0 <= i <= list.len(),
        forall|k: int| 0 <= k < i ==> (#[trigger] list[k]).id@ != id,
        i < list.len() ==> list[i].id@ == id,
    ensures
        process_at(list, id) == i,
    decreases list.len(),
{
    if i > 0 {
        let rest = list.skip(1);
        assert(list[0].id@ != id);
        assert forall|k: int| 0 <= k < i - 1 implies (#[trigger] rest[k]).id@ != id by {
            assert(list[k + 1].id@ != id);
        }
        lemma_process_at(rest, id, i - 1);
    }
}

fn find_process(list: &Vec<Process>, id: &str) -> (r: Option<usize>)
    ensures
        match r {
            Some(i) => i == process_at(list@, id@) && i < list@.len(),
            None => process_at(list@, id@) == list@.len(),
        },
{
    let mut i: usize = 0;
    while i < list.len()
        invariant
            i <= list@.len(),
            forall|k: int| 0 <= k < i ==> (#[trigger] list@[k]).id@ != id@,
        decreases list@.len() - i,
    {
        if same(list[i].id.as_str(), id) {
            proof {
                lemma_process_at(list@, id@, i as int);
            }
            return Some(i);
        }
        i += 1;
    }
    proof {
        lemma_process_at(list@, id@, i as int);
    }
    None
}

/// A list with the first process under an id changed, or as it was where there is none.
pub open spec fn with_process(list: Seq<Process>, id: Seq<char>, after: Seq<Process>, p: Process)
    -> bool {
    let i = process_at(list, id);
    if i < list.len() {
        after == list.update(i, p)
    } else {
        after == list
    }
}

/// What is left of a list of processes once a shell has exited.
pub open spec fn shell_left(
    list: Seq<Process>,
    id: Seq<char>,
    code: i32,
    after: Seq<Process>,
) -> bool {
    if code == 0 {
        after == others(list, id)
    } else {
        with_process(
            list,
            id,
            after,
            (Process {
                kind: ProcKind::Shell { exit_code: Some(code) },
                health: Health::Dead,
                ..list[process_at(list, id)]
            }),
        )
    }
}

/// A process that has ended, as it is listed.
pub open spec fn dead(p: Process) -> Process {
    Process { health: Health::Dead, ..p }
}

/// Settle a shell that exited. One that ended well is gone; one that died keeps its
/// output and its code.
pub fn shell_exited(processes: &mut Vec<Process>, id: &str, code: i32)
    ensures
        shell_left(old(processes)@, id@, code, final(processes)@),
{
    if code == 0 {
        let _ = take_out(processes, id);
    } else {
        match find_process(processes, id) {
            Some(i) => {
                let p: &mut Process = &mut processes[i];
                p.kind = ProcKind::Shell { exit_code: Some(code) };
                p.health = Health::Dead;
            },
            None => {},
        }
    }
}

/// Settle a managed process whose output or whose child has ended.
pub fn process_ended(processes: &mut Vec<Process>, id: &str)
    ensures
        with_process(
            old(processes)@,
            id@,
            final(processes)@,
            dead(old(processes)@[process_at(old(processes)@, id@)]),
        ),
{
    match find_process(processes, id) {
        Some(i) => {
            let p: &mut Process = &mut processes[i];
            p.health = Health::Dead;
        },
        None => {},
    }
}

// ---------------------------------------------------------------------------
// What a build's health does to the sessions beside it
// ---------------------------------------------------------------------------

/// The state a session rests in beside a build: failing with its summary, or waiting
/// with a finished turn.
pub open spec fn at_rest(failing: Option<String>, now: Moment) -> State {
    match failing {
        Some(summary) => State::BuildFailing { summary },
        None => State::YourTurn { since: now, reason: TurnReason::TurnComplete },
    }
}

/// What a change of a build's health makes of a session in its workspace: a red build
/// outranks a finished turn, and a recovered one gives the turn back. A session that is
/// not at rest has nothing to hear yet.
pub open spec fn beside(s: Session, workspace: Seq<char>, health: Health, now: Moment) -> Session {
    if s.workspace@ != workspace {
        s
    } else {
        match (health, s.state) {
            (Health::Failing { summary }, State::YourTurn { .. }) => entered(
                s,
                at_rest(Some(summary), now),
                now,
            ),
            (Health::Fine, State::BuildFailing { .. }) => entered(s, at_rest(None, now), now),
            _ => s,
        }
    }
}

/// Apply the health that a process's output implies. Returns whether it was news.
pub fn scan(
    processes: &mut Vec<Process>,
    sessions: &mut Vec<Session>,
    workspace: &str,
    id: &str,
    health: &Health,
    now: Moment,
) -> (r: bool)
    ensures
        same_ids(old(sessions)@, final(sessions)@),
        ({
            let i = process_at(old(processes)@, id@);
            r == (i < old(processes)@.len() && !same_health(old(processes)@[i].health, *health))
        }),
        r ==> final(processes)@ == old(processes)@.update(
            process_at(old(processes)@, id@),
            (Process {
                health: *health,
                ..old(processes)@[process_at(old(processes)@, id@)]
            }),
        ),
        r ==> final(sessions)@ == old(sessions)@.map_values(
            |s: Session| beside(s, workspace@, *health, now),
        ),
        !r ==> final(processes)@ == old(processes)@ && final(sessions)@ == old(sessions)@,
{
    match find_process(processes, id) {
        None => {
            return false;
        },
        Some(i) => {
            if processes[i].health == *health {
                return false;
            }
            let p: &mut Process = &mut processes[i];
            p.health = health.clone();
        },
    }
    let n: usize = sessions.len();
    let mut i: usize = 0;
    while i < n
        invariant
            n == old(sessions)@.len(),
            sessions@.len() == n,
            i <= n,
            forall|k: int|
                0 <= k < i ==> sessions@[k] == beside(
                    old(sessions)@[k],
                    workspace@,
                    *health,
                    now,
                ),
            forall|k: int| i <= k < n ==> sessions@[k] == old(sessions)@[k],
        decreases n - i,
    {
        if same(sessions[i].workspace.as_str(), workspace) {
            let next: Option<State> = match (health, &sessions[i].state) {
                (Health::Failing { summary }, State::YourTurn { .. }) => Some(
                    State::BuildFailing { summary: summary.clone() },
                ),
                (Health::Fine, State::BuildFailing { .. }) => Some(
                    State::YourTurn { since: now, reason: TurnReason::TurnComplete },
                ),
                _ => None,
            };
            match next {
                Some(state) => {
                    let s: &mut Session = &mut sessions[i];
                    s.set_state(state, now);
                },
                None => {},
            }
        }
        i += 1;
    }
    proof {
        assert(sessions@ =~= old(sessions)@.map_values(
            |s: Session| beside(s, workspace@, *health, now),
        ));
    }
    true
}

/// No agent at work is touched by a build beside it, and no session of another
/// workspace is.
pub proof fn a_build_disturbs_nobody_at_work(
    s: Session,
    workspace: Seq<char>,
    health: Health,
    now: Moment,
)
    ensures
        s.state.busy() || !s.state.live() || s.workspace@ != workspace ==> beside(
            s,
            workspace,
            health,
            now,
        ) == s,
        beside(s, workspace, health, now).had_a_turn == s.had_a_turn,
{
}

/// A red build is seen by everybody who waits beside it, with what it says, and a build that
/// recovered gives them their finished turn back. Nobody else hears of either, and no other
/// health says anything.
pub proof fn a_build_is_seen_by_who_waits_beside_it(
    s: Session,
    workspace: Seq<char>,
    summary: String,
    now: Moment,
)
    ensures
        s.workspace@ == workspace && s.state is YourTurn ==> (beside(
            s,
            workspace,
            Health::Failing { summary },
            now,
        ).state matches State::BuildFailing { summary: said } && said == summary),
        s.workspace@ == workspace && s.state is BuildFailing ==> beside(
            s,
            workspace,
            Health::Fine,
            now,
        ).state == (State::YourTurn { since: now, reason: TurnReason::TurnComplete }),
        !(s.state is YourTurn) ==> beside(s, workspace, Health::Failing { summary }, now) == s,
        !(s.state is BuildFailing) ==> beside(s, workspace, Health::Fine, now) == s,
        beside(s, workspace, Health::Starting, now) == s,
        beside(s, workspace, Health::Dead, now) == s,
{
}

/// A process is found by its id, the first where two share it, and changing it changes no
/// other.
pub proof fn a_process_is_found_by_its_id(
    list: Seq<Process>,
    id: Seq<char>,
    after: Seq<Process>,
    p: Process,
    i: int,
    j: int,
)
    requires
        0 <= i < list.len(),
        list[i].id@ == id,
        forall|k: int| 0 <= k < i ==> (#[trigger] list[k]).id@ != id,
        with_process(list, id, after, p),
        0 <= j < list.len(),
    ensures
        process_at(list, id) == i,
        after.len() == list.len(),
        after[i] == p,
        j != i ==> after[j] == list[j],
{
    lemma_process_at(list, id, i);
}

/// Two healths are the same where they are of one kind and say the same.
pub proof fn a_health_is_like_itself(a: Health, b: Health)
    ensures
        same_health(a, a),
        same_health(a, b) == same_health(b, a),
        a is Fine && !(b is Fine) ==> !same_health(a, b),
        a is Failing && !(b is Failing) ==> !same_health(a, b),
        a is Dead && !(b is Dead) ==> !same_health(a, b),
        a is Starting && !(b is Starting) ==> !same_health(a, b),
        a is Failing && b is Failing && a->summary@ != b->summary@ ==> !same_health(a, b),
{
}

/// A shell that ended well leaves the list. One that died stays listed as dead, with its code
/// and with its terminal to read, and so does a process that ended; everybody else stays as
/// they were.
pub proof fn a_shell_that_died_stays_to_be_read(
    list: Seq<Process>,
    id: Seq<char>,
    code: i32,
    after: Seq<Process>,
    i: int,
    j: int,
)
    requires
        0 <= i < list.len(),
        list[i].id@ == id,
        forall|k: int| 0 <= k < i ==> (#[trigger] list[k]).id@ != id,
        0 <= j < list.len(),
        shell_left(list, id, code, after),
    ensures
        code == 0 ==> after == list.filter(|p: Process| p.id@ != id),
        code != 0 ==> after.len() == list.len() && after[i].health is Dead && after[i].kind
            == (ProcKind::Shell { exit_code: Some(code) }) && after[i].pty == list[i].pty
            && after[i].id == list[i].id && after[i].name == list[i].name && after[i].cwd
            == list[i].cwd,
        code != 0 && j != i ==> after[j] == list[j],
        dead(list[j]).health is Dead && dead(list[j]).pty == list[j].pty && dead(list[j]).kind
            == list[j].kind && dead(list[j]).id == list[j].id && dead(list[j]).name == list[j].name
            && dead(list[j]).cwd == list[j].cwd,
{
    lemma_process_at(list, id, i);
    lemma_others_filter(list, id);
}

} // verus!
