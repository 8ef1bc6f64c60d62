use orchd::api::archive::Conversation;
use orchd::api::rows::{
    adopted, close_process, discard_spawned, drift_warning, forget_session, fork_session,
    kill_session, managed_names, new_worktree, process_closed, process_from_session, record_child,
    refuse_if_occupied, rename_session, restart_process, restart_session, restart_sessions,
    resume_external, revive, revive_failed, revive_step, revive_warning, rewind_session, spawn_from_session,
    Forget, RestartRoute, ReviveStep, SpawnAt,
};
use orchd::api::talk::Keys;
use orchd::api::{
    AdoptOutside, ApiError, NewWorktree, ProcessBody, Rename, RestartAll, RestartAsk, SpawnBody,
};
use orchd::managed::ManagedSpec;
use orchd::model::{
    ArchiveState, Health, Pass, ProcKind, Process, Pty, Session, SessionId, State, TurnReason, Workspace,
    WorkspaceKind,
};
use orchd::restart::Which;
use orchd::spawn::{Source, PENDING_WORKTREE};

const ID: SessionId = 0xaaaa_bbbb_0000_4000_8000_0000_0000_0001;
const CHILD: SessionId = 0xcccc_dddd_0000_4000_8000_0000_0000_0002;
const ID_TEXT: &str = "aaaabbbb-0000-4000-8000-000000000001";
const CHILD_TEXT: &str = "ccccdddd-0000-4000-8000-000000000002";

fn session(id: SessionId, workspace: &str) -> Session {
    let mut s = Session::new(
        id,
        workspace.to_string(),
        format!("/{workspace}"),
        None,
        10,
        "key".to_string(),
    );
    s.pty = Some(Pty {
        handle: 5,
        alive: true,
    });
    s
}

fn keys() -> Keys {
    Keys {
        app_token: "app".to_string(),
        ask: Some("key".to_string()),
        token: None,
    }
}

fn words<T: std::fmt::Debug>(r: Result<T, ApiError>) -> (u16, String) {
    let e = r.unwrap_err();
    (e.status(), e.message().to_string())
}

fn said(text: &str) -> (u16, String) {
    (400, text.to_string())
}

#[test]
fn one_live_session_to_a_workspace_but_main_may_have_several() {
    let mut held = session(ID, "w");
    let list = vec![session(CHILD, "w")];
    assert!(refuse_if_occupied(&list, "w", true, None).is_ok());
    assert!(refuse_if_occupied(&list, "main", true, Some(ID)).is_ok());
    assert_eq!(
        words(refuse_if_occupied(&list, "main", false, Some(ID))),
        said(
            "main already has a live session (aaaabbbb); close it before starting another"
        )
    );
    held.name = Some("mine".to_string());
    assert_eq!(
        words(refuse_if_occupied(&vec![held], "w", true, Some(ID))),
        said("w already has a live session (mine); close it before starting another")
    );
}

#[test]
fn a_blank_name_is_no_name() {
    for (given, want) in [
        (None, None),
        (Some("  "), None),
        (Some(" a b "), Some("a b")),
    ] {
        let body = NewWorktree {
            name: given.map(str::to_string),
        };
        assert_eq!(new_worktree(&body).as_deref(), want);
    }
}

#[test]
fn a_name_is_kept_short_and_given_back() {
    let mut list = vec![session(ID, "w")];
    let rename = |list: &mut Vec<Session>, n: Option<&str>| {
        rename_session(
            list,
            ID,
            &Rename {
                name: n.map(str::to_string),
            },
        )
    };
    rename(&mut list, Some(&format!("  {}  ", "é".repeat(90)))).unwrap();
    assert_eq!(list[0].name.as_deref(), Some("é".repeat(80).as_str()));
    rename(&mut list, Some(" ")).unwrap();
    assert_eq!(list[0].name, None);
    assert_eq!(
        words(rename(&mut vec![], None)),
        (404, format!("no such session {ID_TEXT}"))
    );
}

#[test]
fn only_a_session_with_a_terminal_is_killed() {
    let mut list = vec![session(ID, "w")];
    assert_eq!(kill_session(&list, ID).unwrap().handle, 5);
    list[0].pty = None;
    assert_eq!(words(kill_session(&list, ID)).0, 404);
    assert_eq!(words(kill_session(&list, CHILD)).0, 404);
}

#[test]
fn the_picker_opens_at_the_prompt_alone() {
    let turn = |reason| State::YourTurn { since: 1, reason };
    let mut list = vec![session(ID, "w")];
    list[0].set_state(turn(TurnReason::Ready), 1);
    list[0].had_a_turn = false;
    assert_eq!(
        words(rewind_session(&list, ID)),
        said("this session has no conversation to rewind")
    );
    list[0].had_a_turn = true;
    assert_eq!(rewind_session(&list, ID).unwrap().handle, 5);
    for (state, why) in [
        (
            turn(TurnReason::AskedAQuestion),
            "it is asking you something — an escape would cancel the question, not rewind",
        ),
        (
            turn(TurnReason::NeedsPermission),
            "it is waiting for permission — an escape would decline it, not rewind",
        ),
        (
            State::Working,
            "the picker only opens at the prompt, and this session is mid-turn",
        ),
        (
            State::Starting,
            "the picker only opens at the prompt, and this session is still starting",
        ),
        (
            State::Exited,
            "the picker only opens at the prompt, and this session is not live",
        ),
    ] {
        list[0].state = state;
        assert_eq!(words(rewind_session(&list, ID)), said(why));
    }
    list[0].state = turn(TurnReason::Ready);
    list[0].pty = Some(Pty {
        handle: 5,
        alive: false,
    });
    assert_eq!(
        words(rewind_session(&list, ID)),
        said(&format!("session {ID_TEXT} has no live terminal"))
    );
    assert_eq!(words(rewind_session(&list, CHILD)).0, 404);
}

#[test]
fn a_record_is_dropped_after_its_agent() {
    let mut list = vec![session(ID, "w")];
    assert_eq!(
        forget_session(&list, ID).unwrap(),
        vec![Forget::Kill, Forget::ReleaseMain, Forget::Remove]
    );
    list[0].pty = None;
    list[0].archived_transcript = Some("/copy".to_string());
    assert_eq!(
        forget_session(&list, ID).unwrap(),
        vec![Forget::ReleaseMain, Forget::Remove, Forget::DeleteCopy]
    );
    assert_eq!(words(forget_session(&list, CHILD)).0, 404);
}

#[test]
fn a_session_discards_only_its_own_spawns() {
    let mut list = vec![session(ID, "main"), session(CHILD, "w")];
    assert_eq!(
        words(discard_spawned(&list, &keys(), ID, CHILD)),
        said(&format!(
            "{CHILD_TEXT} is not a session you spawned; close it in the app"
        ))
    );
    record_child(&mut list, CHILD, ID, true, &Some(" hello ".to_string()));
    assert_eq!(list[1].pending_prompt.as_deref(), Some("hello"));
    assert_eq!(
        discard_spawned(&list, &keys(), ID, CHILD).unwrap(),
        ("w".to_string(), true)
    );
    // A tree that was there before stays, and so does one with no name yet.
    record_child(&mut list, CHILD, ID, false, &None);
    assert_eq!(list[1].pending_prompt.as_deref(), Some("hello"));
    assert!(!discard_spawned(&list, &keys(), ID, CHILD).unwrap().1);
    record_child(&mut list, CHILD, ID, true, &None);
    list[1].workspace = PENDING_WORKTREE.to_string();
    assert!(!discard_spawned(&list, &keys(), ID, CHILD).unwrap().1);
    list[1].workspace = "main".to_string();
    assert!(!discard_spawned(&list, &keys(), ID, CHILD).unwrap().1);
    assert_eq!(
        words(discard_spawned(&list, &keys(), ID, 7)).0,
        404
    );
    let mut wrong = keys();
    wrong.ask = Some("x".to_string());
    assert_eq!(
        words(discard_spawned(&list, &wrong, ID, CHILD)),
        said(&format!("bad ask token for session {ID_TEXT}"))
    );
}

fn spawn_body(workspace: Option<&str>, worktree: bool, name: Option<&str>) -> SpawnBody {
    SpawnBody {
        workspace: workspace.map(str::to_string),
        worktree,
        name: name.map(str::to_string),
        prompt: None,
    }
}

#[test]
fn a_spawn_goes_where_it_is_asked_to() {
    let known = vec!["w".to_string(), "main".to_string(), "a".to_string()];
    let from_main = vec![session(ID, "main")];
    let from_tree = vec![session(ID, "w")];
    let go = |list: &Vec<Session>, b: SpawnBody| {
        spawn_from_session(list, &keys(), ID, &b, &known)
    };
    assert!(matches!(
        go(&from_main, spawn_body(Some(" a "), false, None)),
        Ok((SpawnAt::Workspace(w), false)) if w == "a"
    ));
    // Main holds no second one, so a tree is cut.
    assert!(matches!(
        go(&from_main, spawn_body(None, false, Some(" n "))),
        Ok((SpawnAt::Worktree(Some(n)), true)) if n == "n"
    ));
    assert!(matches!(
        go(&from_tree, spawn_body(Some(" "), false, None)),
        Ok((SpawnAt::Workspace(w), false)) if w == "w"
    ));
    assert!(matches!(
        go(&from_tree, spawn_body(None, true, None)),
        Ok((SpawnAt::Worktree(None), true))
    ));
    assert_eq!(
        words(go(&from_tree, spawn_body(Some("a"), true, None))),
        said("name a workspace or ask for a worktree, not both")
    );
    assert_eq!(
        words(go(&from_tree, spawn_body(Some("zz"), false, None))),
        said(
            "unknown workspace zz — known: a, main, w. Use worktree:true to cut a new one"
        )
    );
}

fn process(id: &str, name: &str, alive: Option<bool>) -> Process {
    Process {
        id: id.to_string(),
        name: name.to_string(),
        kind: ProcKind::Shell { exit_code: None },
        health: Health::Fine,
        cwd: "/w".to_string(),
        pty: alive.map(|alive| Pty { handle: 9, alive }),
    }
}

fn space(id: &str, processes: Vec<Process>) -> Workspace {
    Workspace {
        id: id.to_string(),
        path: format!("/{id}"),
        kind: WorkspaceKind::Worktree {
            name: id.to_string(),
        },
        branches: vec![],
        processes,
        occupant: None,
        tree: Default::default(),
        banked: None,
    }
}

fn spec(name: &str) -> ManagedSpec {
    ManagedSpec {
        name: name.to_string(),
        command: vec!["run".to_string()],
        stop_command: vec![],
    }
}

#[test]
fn a_process_is_started_by_a_declared_name_and_once() {
    let list = vec![session(ID, "w")];
    let specs = vec![spec("web"), spec("db")];
    let body = |n: &str| ProcessBody {
        name: n.to_string(),
    };
    let idle = vec![space("w", vec![process("w:db", "db", Some(false))])];
    assert_eq!(
        process_from_session(&list, &keys(), ID, &body("db"), &specs, &idle).ok(),
        Some(1)
    );
    let busy = vec![
        space("x", vec![]),
        space("w", vec![process("w:db", "db", Some(true))]),
    ];
    assert_eq!(
        words(process_from_session(&list, &keys(), ID, &body("db"), &specs, &busy)),
        said("db is already running in w")
    );
    // Another workspace's process of that name is no obstacle.
    let elsewhere = vec![space("x", vec![process("x:db", "db", Some(true))])];
    assert!(process_from_session(&list, &keys(), ID, &body("db"), &specs, &elsewhere).is_ok());
    assert_eq!(
        words(process_from_session(&list, &keys(), ID, &body("z"), &specs, &idle)),
        said("w declares no process called z; it has web, db")
    );
    assert_eq!(
        words(process_from_session(&list, &keys(), ID, &body("z"), &vec![], &idle)),
        said("w declares no process called z; it has none at all")
    );
    assert_eq!(managed_names(&specs), vec!["web", "db"]);
    let (k, old) = restart_process(&specs, &busy, "w", "db").unwrap();
    assert_eq!((k, old.map(|p| p.handle)), (1, Some(9)));
    assert_eq!(
        words(restart_process(&specs, &busy, "w", "z")),
        said("no managed process z for w")
    );
}

#[test]
fn a_closed_process_is_listed_nowhere() {
    let mut spaces = vec![
        space("x", vec![process("x:a", "a", Some(true))]),
        space(
            "w",
            vec![process("w:a", "a", Some(true)), process("w:b", "b", None)],
        ),
    ];
    let found = close_process(&spaces, "w:a").unwrap();
    assert_eq!(
        (found.workspace.as_str(), found.name.as_str(), found.pty.handle),
        ("w", "a", 9)
    );
    assert!(close_process(&spaces, "w:b").is_none());
    process_closed(&mut spaces, "w:a");
    assert!(close_process(&spaces, "w:a").is_none());
    assert_eq!(spaces[0].processes.len(), 1);
    assert_eq!(spaces[1].processes.len(), 1);
    assert_eq!(spaces[1].processes[0].id, "w:b");
}

fn outside(id: SessionId) -> Conversation {
    Conversation {
        id,
        workspace: "w".to_string(),
        branch: Some("was".to_string()),
        transcript: "/t".to_string(),
    }
}

#[test]
fn a_conversation_is_taken_over_once_and_not_from_under_a_terminal() {
    let external = vec![outside(7), outside(ID)];
    let force = AdoptOutside { force: true };
    let none: Vec<Session> = vec![];
    let take = |list: &Vec<Session>, claimed, recent, body, live| {
        resume_external(list, &external, ID, claimed, recent, body, false, live)
    };
    assert_eq!(take(&none, true, false, None, None).ok(), Some(1));
    assert_eq!(take(&none, true, true, Some(&force), None).ok(), Some(1));
    assert_eq!(
        words(take(&none, false, false, None, None)),
        (
            409,
            "conversation aaaabbbb is already being taken over".to_string()
        )
    );
    assert_eq!(
        words(take(&vec![session(ID, "w")], true, false, None, None)),
        said("session aaaabbbb is one of this daemon's own; resume it from its row")
    );
    assert_eq!(
        words(take(&none, true, true, None, None)),
        said(
            "conversation aaaabbbb was written to moments ago and may still be open in a \
             terminal; close it first, or adopt it anyway"
        )
    );
    assert_eq!(
        words(take(&none, true, false, None, Some(7))),
        said("w already has a live session (00000000); close it before starting another")
    );
    assert_eq!(
        words(resume_external(
            &none,
            &vec![],
            ID,
            true,
            false,
            None,
            false,
            None
        )),
        said("no conversation aaaabbbb in this checkout's transcripts")
    );
    let mut left = external;
    adopted(&mut left, ID);
    assert_eq!(left.iter().map(|c| c.id).collect::<Vec<_>>(), vec![7]);
}

#[test]
fn drift_is_told_where_both_branches_are_known() {
    assert_eq!(
        drift_warning(Some("a"), Some("b"), "w").as_deref(),
        Some("this conversation was working on a; w is on b now")
    );
    assert_eq!(drift_warning(Some("a"), Some("a"), "w"), None);
    assert_eq!(drift_warning(None, Some("a"), "w"), None);
    assert_eq!(drift_warning(Some("a"), None, "w"), None);
}

#[test]
fn nothing_said_is_nothing_to_fork() {
    let mut list = vec![session(ID, "w")];
    assert_eq!(
        words(fork_session(&list, ID)),
        said("session aaaabbbb has no conversation yet — nothing to fork")
    );
    list[0].had_a_turn = true;
    assert!(fork_session(&list, ID).is_ok());
    assert_eq!(words(fork_session(&list, CHILD)).0, 404);
}

#[test]
fn a_transcript_alone_is_not_resumed() {
    let mut list = vec![session(ID, "w")];
    let go = |list: &Vec<Session>, id, live, standing| {
        revive(list, id, false, live, standing).map(|r| {
            (r.workspace, r.cwd, r.pass.map(|p| p.pr), r.resume, r.first)
        })
    };
    list[0].pass = Some(Pass {
        pr: 12,
        command: "review".to_string(),
    });
    list[0].recovery = Some(ArchiveState::Recoverable {
        name: "w".to_string(),
        branch: "b".to_string(),
        head_sha: "abc".to_string(),
    });
    assert_eq!(
        go(&list, ID, None, true).unwrap(),
        (
            "w".to_string(),
            "/w".to_string(),
            Some(12),
            Source::Resume(ID),
            ReviveStep::LookForDrift
        )
    );
    // Torn down: built again from its record.
    let back = revive(&list, ID, false, None, false).ok().unwrap();
    assert_eq!(back.first, ReviveStep::Rebuild);
    assert!(matches!(
        back.recovery,
        Some(ArchiveState::Recoverable { head_sha, .. }) if head_sha == "abc"
    ));
    assert_eq!(
        words(go(&list, ID, Some(CHILD), true)).1,
        "w already has a live session (ccccdddd); close it before starting another"
    );
    list[0].recovery = Some(ArchiveState::TranscriptOnly);
    assert_eq!(
        words(go(&list, ID, None, true)),
        said(&format!(
            "session {ID_TEXT} is transcript-only: the branch is gone and the commit is unreachable"
        ))
    );
    assert_eq!(words(go(&list, CHILD, None, true)).0, 404);
}

#[test]
fn a_tree_is_back_before_its_agent_is() {
    let run = |standing: bool, fails: Option<ReviveStep>| {
        let mut out = Vec::new();
        let (mut last, mut ok) = (None, true);
        while let Some(s) = revive_step(last, ok, standing) {
            out.push(s);
            ok = fails != Some(s);
            last = Some(s);
        }
        out
    };
    assert_eq!(
        run(false, None),
        vec![ReviveStep::Rebuild, ReviveStep::Relaunch]
    );
    assert_eq!(
        run(false, Some(ReviveStep::Rebuild)),
        vec![ReviveStep::Rebuild]
    );
    // A tree that cannot be read stops nothing.
    assert_eq!(
        run(true, Some(ReviveStep::LookForDrift)),
        vec![ReviveStep::LookForDrift, ReviveStep::Relaunch]
    );
    assert_eq!(
        revive_failed(ID, "no commit").message(),
        format!("session {ID_TEXT}: no commit")
    );
    assert_eq!(
        revive_warning(Ok(Some("moved on".to_string()))).as_deref(),
        Some("moved on")
    );
    assert_eq!(revive_warning(Err("unreadable".to_string())), None);
}

#[test]
fn a_restart_route_says_what_it_asks_for() {
    assert_eq!(
        restart_session(ID, None),
        RestartRoute::Queue(Which::One(ID))
    );
    assert_eq!(
        restart_session(ID, Some(&RestartAsk { cancel: true })),
        RestartRoute::Cancel(ID)
    );
    assert_eq!(restart_sessions(None), RestartRoute::Queue(Which::All));
    assert_eq!(
        restart_sessions(Some(&RestartAll { stale: true })),
        RestartRoute::Queue(Which::Stale)
    );
}
