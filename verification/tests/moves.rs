use orchd::api::{refuse, ApiError};
use orchd::config::WorkspaceNotes;
use orchd::model::{
    ArchiveState, Pass, Pty, Session, SessionId, State, TurnReason, Workspace, WorkspaceKind,
};
use orchd::relocate::names::tree_stem;
use orchd::relocate::{
    arrival_notice, branch_leaf, carry_record, carry_report, check_moves_landed,
    free_worktree_name, leave_main_steps, leave_stage, move_out_of_main, siblings, swap_may_move,
    swap_may_start, swap_select, swap_with_main, swap_with_main_inner, swapped_as_read, to_carry,
    LeaveStage, LeaveStep, Side, SwapStage, SwapStep,
};
use orchd::spawn::moving::{
    leaving, relocate_session, relocated, restore_after_relocate, spawn_worktree_session, Move,
    Opening, WorktreeAsk,
};
use orchd::spawn::record::Candidate;
use orchd::spawn::Relocated;

const ID: SessionId = 0xaaaa_bbbb_0000_4000_8000_0000_0000_0001;

fn session(id: SessionId, workspace: &str, branch: &str, state: State, at: u64) -> Session {
    let mut s = Session::new(
        id,
        workspace.to_string(),
        format!("/{workspace}"),
        None,
        at,
        String::new(),
    );
    s.branch = Some(branch.to_string());
    s.state = state;
    s
}

fn ready() -> State {
    State::YourTurn {
        since: 1,
        reason: TurnReason::Ready,
    }
}

fn notes() -> WorkspaceNotes {
    WorkspaceNotes {
        main: Some("Main note.".to_string()),
        worktree: None,
    }
}

fn words<T>(r: Result<T, ApiError>) -> (u16, String) {
    match r {
        Ok(_) => panic!("it was not refused"),
        Err(e) => (e.status(), e.message().to_string()),
    }
}

#[test]
fn the_newest_live_conversation_travels_and_the_records_with_it() {
    let mut run = session(5, "w", "b", ready(), 90);
    run.pass = Some(Pass {
        pr: 1,
        command: "fix-pr".to_string(),
    });
    let mut lost = session(6, "w", "b", State::Exited, 1);
    lost.recovery = Some(ArchiveState::TranscriptOnly);
    let list = vec![
        session(1, "w", "b", ready(), 10),
        session(2, "w", "b", State::Working, 30),
        session(3, "w", "b", State::Exited, 1),
        session(4, "w", "other", ready(), 99),
        run,
        lost,
        session(7, "main", "b", ready(), 99),
        session(8, "w", "b", ready(), 40),
    ];
    // The newest of all has no conversation on disk, so the next one travels.
    let (live, records) = to_carry(&list, "w", "b", &vec![1, 2, 7]);
    assert_eq!(live, Some(2));
    assert_eq!(records, vec![3]);
    assert_eq!(to_carry(&list, "w", "b", &vec![]).0, None);
}

#[test]
fn a_moved_record_is_told_where_it_is() {
    let mut list = vec![session(1, "w", "b", State::Exited, 1)];
    carry_record(
        "Agent",
        &mut list,
        1,
        "main",
        "/repo",
        "b",
        Some("/t".to_string()),
        &notes(),
    );
    let s = &list[0];
    assert_eq!(
        (s.workspace.as_str(), s.cwd.as_str(), s.branch.as_deref()),
        ("main", "/repo", Some("b"))
    );
    assert_eq!(s.transcript_path.as_deref(), Some("/t"));
    let told = arrival_notice("Agent", &notes(), "b", "/w", "/repo", true);
    assert_eq!(s.arrival_notice.as_deref(), Some(told.as_str()));
    assert_eq!(
        told,
        "This conversation has been moved. The branch b was carried into another checkout and \
         this session followed it: your working directory is now /repo, and until this move it \
         was /w. What travelled is that branch and its uncommitted work. If you had been editing \
         on a *different* branch, those edits are still in the tree you came from — check before \
         you assume either way, and say what you find rather than moving anything. Agent's \
         worktree isolation for this session has already been released, so do not call \
         `ExitWorktree` or `EnterWorktree`, and do not re-run the move: git in this directory \
         works now. Treat remembered absolute paths as stale and re-read anything you are about \
         to change. Main note."
    );
    // Carried back, it is where it was; nothing refiled keeps the path it had.
    carry_record("Agent", &mut list, 1, "w", "/w", "b", None, &notes());
    assert_eq!(list[0].workspace, "w");
    assert_eq!(list[0].transcript_path.as_deref(), Some("/t"));
    assert!(!list[0].arrival_notice.as_ref().unwrap().contains("Main note"));
    let before = list[0].arrival_notice.clone();
    carry_record("Agent", &mut list, 9, "main", "/repo", "b", None, &notes());
    assert_eq!(list[0].arrival_notice, before);
}

#[test]
fn a_swap_says_why_it_does_not_start() {
    assert!(swap_may_start("w", true, true, None, None).is_ok());
    for (r, why) in [
        (
            swap_may_start("main", true, true, None, None),
            "main cannot be swapped with itself",
        ),
        (
            swap_may_start("w", false, true, None, None),
            "a swap is already running; it moves whole checkouts and their conversations, so \
             give it a moment and look at the rail before asking again",
        ),
        (
            swap_may_start("w", true, false, None, None),
            "unknown workspace w",
        ),
        (
            swap_may_start("w", true, true, Some("a"), Some("b")),
            "main has an agent mid-turn (a); the swap replaces every file under it, so let that \
             turn finish first",
        ),
        (
            swap_may_start("w", true, true, None, Some("b")),
            "this worktree has an agent mid-turn (b); the swap replaces every file under it, so \
             let that turn finish first",
        ),
        (
            swap_may_move(true, true),
            "the main checkout has a rebase stopped part-way; finish or abort it first",
        ),
        (
            swap_may_move(false, true),
            "this worktree has a rebase stopped part-way; finish or abort it first",
        ),
    ] {
        assert_eq!(words(r), (400, why.to_string()));
    }
    assert!(swap_may_move(false, false).is_ok());
}

#[test]
fn a_refused_swap_exchanges_nothing() {
    let run = |fails: Option<SwapStage>| {
        let mut out = Vec::new();
        let (mut last, mut ok) = (None, true);
        while let Some(s) = swap_with_main_inner(last, ok) {
            out.push(s);
            ok = fails != Some(s);
            last = Some(s);
        }
        out
    };
    assert_eq!(
        run(None),
        vec![
            SwapStage::Check,
            SwapStage::ReadBranches,
            SwapStage::PickTravellers,
            SwapStage::CheckRebases,
            SwapStage::ListUntracked,
            SwapStage::Exchange,
            SwapStage::Follow,
            SwapStage::Report,
        ]
    );
    for s in [SwapStage::Check, SwapStage::CheckRebases] {
        assert!(!run(Some(s)).contains(&SwapStage::Exchange));
    }
    assert_eq!(run(Some(SwapStage::Follow)).last(), Some(&SwapStage::Report));
}

#[test]
fn main_is_vacated_before_anybody_arrives() {
    assert_eq!(
        swap_with_main(Some(1), Some(2), &vec![3], &vec![4, 5]),
        vec![
            SwapStep::Forget(Side::Tree),
            SwapStep::Forget(Side::Main),
            SwapStep::Reconcile(Side::Main),
            SwapStep::Reconcile(Side::Tree),
            SwapStep::Relocate(1, Side::Tree),
            SwapStep::Relocate(2, Side::Main),
            SwapStep::Carry(3, Side::Tree),
            SwapStep::Carry(4, Side::Main),
            SwapStep::Carry(5, Side::Main),
            SwapStep::Notify(Side::Tree),
            SwapStep::Notify(Side::Main),
        ]
    );
    assert!(swapped_as_read("a", "b", "b", "a"));
    assert!(!swapped_as_read("a", "b", "b", "c"));
}

#[test]
fn a_swap_lands_on_who_arrived_in_main() {
    let ok = |id| Some(Ok(Relocated { id, degraded: id == 2 }));
    let err = || Some(Err(refuse("down".to_string())));
    assert_eq!(swap_select(&ok(1), &ok(2)), Some(1));
    assert_eq!(swap_select(&err(), &ok(2)), Some(2));
    assert_eq!(swap_select(&None, &err()), None);
    assert!(carry_report(&None).is_none());
    let good = carry_report(&ok(2)).unwrap();
    assert_eq!((good.session, good.degraded, good.error), (Some(2), true, None));
    let bad = carry_report(&err()).unwrap();
    assert_eq!(
        (bad.session, bad.degraded, bad.error.as_deref()),
        (None, false, Some("down"))
    );
}

#[test]
fn a_session_leaves_main_from_its_prompt() {
    let list = vec![
        session(ID, "main", "b", ready(), 1),
        session(2, "main", "b", State::Working, 1),
        session(3, "w", "b", ready(), 1),
        session(4, "main", "b", State::Exited, 1),
    ];
    assert_eq!(move_out_of_main(&list, ID, true).ok(), Some(true));
    assert_eq!(move_out_of_main(&list, 4, true).ok(), Some(false));
    assert_eq!(
        words(move_out_of_main(&list, ID, false)).1,
        "a swap is already running; it moves main's checkout, so give it a moment and look at \
         the rail before asking again"
    );
    assert_eq!(words(move_out_of_main(&list, 9, true)).0, 404);
    assert_eq!(
        words(move_out_of_main(&list, 3, true)).1,
        "00000000 is not in main, so there is nothing to move it out of"
    );
    assert_eq!(
        words(move_out_of_main(&list, 2, true)).1,
        "that agent is mid-turn; the move replaces every file under it, so let the turn finish \
         first"
    );
    assert_eq!(
        leave_stage(Some(LeaveStage::FindBase), false),
        None
    );
    assert_eq!(
        leave_stage(Some(LeaveStage::ListUntracked), true),
        Some(LeaveStage::MoveBranch)
    );
    assert_eq!(
        leave_main_steps(true)[6..].to_vec(),
        vec![
            LeaveStep::Relocate,
            LeaveStep::Notify,
            LeaveStep::CarryOthers
        ]
    );
    assert_eq!(
        leave_main_steps(false)[6..].to_vec(),
        vec![LeaveStep::CarryRecord, LeaveStep::CarryOthers]
    );
    assert_eq!(siblings(&vec![1, 2, 1, 3], 1), vec![2, 3]);
}

#[test]
fn a_tree_is_named_after_its_branch() {
    for (branch, want) in [
        ("feature/login page", "login-page"),
        ("--x--", "x"),
        ("a/", "work"),
        ("ünï", "n"),
        ("under_score-9", "under_score-9"),
    ] {
        assert_eq!(branch_leaf(branch), want, "{branch}");
    }
    assert_eq!(branch_leaf(&"x".repeat(60)), "x".repeat(48));
    assert_eq!(tree_stem("main", Some("main")), "work");
    assert_eq!(tree_stem("fix/a", Some("main")), "a");
    let taken = |l: &[&str]| l.iter().map(|s| s.to_string()).collect::<Vec<_>>();
    assert_eq!(free_worktree_name("a", &taken(&[])), "a");
    assert_eq!(free_worktree_name("a", &taken(&["a", "a-2"])), "a-3");
    let mut all: Vec<String> = (2..100).map(|n| format!("a-{n}")).collect();
    all.push("a".to_string());
    assert_eq!(free_worktree_name("a", &all), "a");
}

#[test]
fn a_conversation_without_its_branch_is_named() {
    let space = |id: &str, branch: Option<&str>| {
        let mut w = Workspace {
            id: id.to_string(),
            path: format!("/{id}"),
            kind: WorkspaceKind::Worktree {
                name: id.to_string(),
            },
            branches: vec![],
            processes: vec![],
            occupant: None,
            tree: Default::default(),
            banked: None,
        };
        w.tree.branch = branch.map(str::to_string);
        w
    };
    let mut run = session(3, "w", "b", ready(), 1);
    run.pass = Some(Pass {
        pr: 1,
        command: "fix-pr".to_string(),
    });
    let list = vec![
        session(1, "w", "b", ready(), 1),
        session(2, "w", "a", ready(), 1),
        run,
        session(4, "w", "b", State::Exited, 1),
        session(5, "x", "b", ready(), 1),
        session(6, "gone", "b", ready(), 1),
    ];
    let spaces = vec![space("w", Some("a")), space("x", None)];
    assert_eq!(check_moves_landed(&list, &spaces), vec![1]);
}

#[test]
fn a_move_resumes_after_the_old_process_is_gone() {
    let run = |fails: &[Move], running, from: &str, to: &str| {
        let mut out = Vec::new();
        let (mut last, mut ok) = (None, true);
        while let Some(m) = relocate_session(last, ok, running, from, to) {
            out.push(m);
            ok = !fails.contains(&m);
            last = Some(m);
        }
        out
    };
    assert_eq!(
        run(&[Move::MoveTranscript], true, "main", "w"),
        vec![
            Move::Kill,
            Move::ReleaseMain,
            Move::MoveTranscript,
            Move::Resume,
            Move::Restore
        ]
    );
    assert_eq!(
        run(&[Move::Resume], false, "w", "main"),
        vec![
            Move::MoveTranscript,
            Move::Resume,
            Move::Fork,
            Move::Restore
        ]
    );
    assert_eq!(
        run(&[Move::Resume, Move::Fork], true, "main", "main"),
        vec![
            Move::Kill,
            Move::MoveTranscript,
            Move::Resume,
            Move::Fork,
            Move::GiveUp
        ]
    );
}

#[test]
fn a_move_keeps_what_the_record_alone_knows() {
    let mut list = vec![session(ID, "w", "b", ready(), 7)];
    list[0].title = Some("title".to_string());
    list[0].name = Some("name".to_string());
    list[0].pty = Some(Pty {
        handle: 4,
        alive: true,
    });
    let was = leaving(&list, ID, "x", true).ok().unwrap();
    assert_eq!((was.cwd.as_str(), was.created_at), ("/w", 7));
    let mut now = vec![session(ID, "x", "b", ready(), 99)];
    now[0].title = Some("new title".to_string());
    restore_after_relocate(&mut now, ID, was, Some("/t".to_string()));
    assert_eq!(now[0].title.as_deref(), Some("new title"));
    assert_eq!(now[0].name.as_deref(), Some("name"));
    assert_eq!(now[0].created_at, 7);
    assert_eq!(now[0].transcript_path.as_deref(), Some("/t"));
    assert_eq!(
        words(leaving(&list, ID, "x", false)).1,
        "unknown workspace x"
    );
    assert_eq!(
        words(leaving(&vec![], ID, "x", true)).1,
        "unknown session aaaabbbb"
    );
}

#[test]
fn a_move_that_fails_leaves_the_conversation_resumable() {
    let forked = |r: Result<u128, &str>| r.map_err(str::to_string);
    let ok = relocated(ID, "w", true, forked(Ok(9))).unwrap();
    assert_eq!((ok.id, ok.degraded), (ID, false));
    let fork = relocated(ID, "w", false, forked(Ok(9))).unwrap();
    assert_eq!((fork.id, fork.degraded), (9, true));
    assert_eq!(
        words(relocated(ID, "w", false, forked(Err("exited")))).1,
        "neither resuming nor forking aaaabbbb into w stayed up; it is closed but its \
         conversation is intact and resumable: exited"
    );
}

fn ask(name: Option<&str>) -> WorktreeAsk {
    let c = |n: &str, on_disk| Candidate {
        name: n.to_string(),
        on_disk,
    };
    WorktreeAsk {
        name: name.map(str::to_string),
        on_disk: None,
        fork: None,
        parent: None,
        spare: None,
        candidates: vec![c("held", false), c("there", true), c("free", false)],
        held: vec!["main".to_string(), "held".to_string()],
    }
}

#[test]
fn a_worktree_is_planned_before_anything_is_cut() {
    let plan = |a: &WorktreeAsk| spawn_worktree_session(a, ID, "origin/main");
    let free = plan(&ask(None)).ok().unwrap();
    assert_eq!(
        (free.name.as_str(), free.branch.as_str(), free.base.as_str()),
        ("free", "worktree-free", "origin/main")
    );
    assert_eq!(
        free.steps,
        vec![
            Opening::CutTree,
            Opening::RunHooks,
            Opening::ReadEnvironment,
            Opening::Register,
            Opening::ReadBranch,
            Opening::Start,
            Opening::RefillPool,
        ]
    );
    let mut spare = ask(None);
    spare.spare = Some("cut".to_string());
    let taken = plan(&spare).ok().unwrap();
    assert_eq!(taken.name, "cut");
    assert!(!taken.steps.contains(&Opening::CutTree));
    // A fork is cut from its parent's commit, and takes no spare.
    spare.fork = Some(7);
    spare.parent = Some(Some("sha".to_string()));
    let fork = plan(&spare).ok().unwrap();
    assert_eq!((fork.name.as_str(), fork.base.as_str()), ("free", "sha"));
    assert_eq!(fork.steps[0], Opening::ReadParentHead);
    assert!(fork.steps.contains(&Opening::CarryWork));
    let mut none = ask(None);
    none.candidates = vec![];
    assert_eq!(plan(&none).ok().unwrap().name, "wt-aaaabbbb");
    assert_eq!(
        words(plan(&ask(Some("held")))).1,
        "a workspace named held already exists"
    );
    let mut there = ask(Some("new"));
    there.on_disk = Some("/trees/new".to_string());
    assert_eq!(
        words(plan(&there)).1,
        "/trees/new already exists on disk"
    );
    assert_eq!(
        words(plan(&ask(Some("../up")))).1,
        "worktree name may only contain letters, digits, '-', '_' and '.'"
    );
}
