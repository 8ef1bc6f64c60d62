use orchd::api::ApiError;
use orchd::model::{Pass, Pty, Session, SessionId, State, TurnReason};
use orchd::spawn::checkout::{
    base_holder, branch_busy, ensure_pr_worktree, main_is_on, park_main, parkable,
    pr_worktree_at, pr_worktree_first, pr_worktree_locked, recorded_worktree_for,
    released_stem, switch_main_to_pr, Holder, Park, ParkNews, PrTree, PrTreeStep,
};
use orchd::spawn::exit::{after_exit, exit_owes, place_of, watch_session_exit, Ended, Owed, Place};
use orchd::spawn::output::{agent_error, complaint_in, drained, strip_escapes};
use orchd::spawn::record::{
    carry_into, session_command, session_id_for, spawn_session_with_id, worktree_base,
    worktree_command, worktree_launch, worktree_record,
};
use orchd::spawn::runs::{
    post_token_for, refuse_if_branch_is_busy, run_env, spawn_fix_pr_session, spawn_run, VarNames,
};
use orchd::spawn::start::{
    attach, first_step, insert_record, remove_record, room_for_a_session, spawn_session,
    spawn_session_confirmed, Step,
};
use orchd::spawn::{validate_worktree_name, Source, PENDING_WORKTREE};

const ID: SessionId = 0xaaaa_bbbb_0000_4000_8000_0000_0000_0001;
const ID_TEXT: &str = "aaaabbbb-0000-4000-8000-000000000001";

fn session(id: SessionId) -> Session {
    Session::new(
        id,
        "w".to_string(),
        "/w".to_string(),
        None,
        10,
        "key".to_string(),
    )
}

fn pass(command: &str) -> Option<Pass> {
    Some(Pass {
        pr: 12,
        command: command.to_string(),
    })
}

fn words<T>(r: Result<T, ApiError>) -> String {
    match r {
        Ok(_) => panic!("it was not refused"),
        Err(e) => e.message().to_string(),
    }
}

fn flags() -> Vec<String> {
    vec!["--flag".to_string()]
}

#[test]
fn a_new_id_is_a_random_one_and_a_resume_keeps_its_own() {
    assert_eq!(session_id_for(Some(Source::Resume(ID))), ID);
    let a = session_id_for(None);
    let b = session_id_for(Some(Source::Fork(ID)));
    assert_ne!(a, b);
    for id in [a, b] {
        assert_eq!((id >> 76) & 0xf, 4);
        assert_eq!((id >> 62) & 0x3, 2);
        assert_eq!(uuid::Uuid::from_u128(id).get_version_num(), 4);
    }
}

#[test]
fn a_command_says_which_conversation_it_continues() {
    assert_eq!(
        session_command("agent", None, ID, &flags()),
        vec!["agent", "--session-id", ID_TEXT, "--flag"]
    );
    assert_eq!(
        session_command("agent", Some(Source::Resume(ID)), ID, &flags()),
        vec!["agent", "--resume", ID_TEXT, "--flag"]
    );
    let two = "00000000-0000-0000-0000-000000000002";
    assert_eq!(
        session_command("agent", Some(Source::Fork(2)), ID, &flags()),
        vec![
            "agent",
            "--session-id",
            ID_TEXT,
            "--resume",
            two,
            "--fork-session",
            "--flag"
        ]
    );
    assert_eq!(
        worktree_command("agent", Some(2), ID, &flags()),
        vec![
            "agent",
            "--resume",
            two,
            "--fork-session",
            "--session-id",
            ID_TEXT,
            "--flag"
        ]
    );
}

#[test]
fn a_launch_carries_the_conversation_on() {
    let mut before = session(ID);
    before.branch = Some("b".to_string());
    before.name = Some("mine".to_string());
    before.had_a_turn = true;
    let list = vec![before];
    let launch = spawn_session_with_id(
        &list,
        "agent",
        "x",
        Some("/x"),
        pass("review"),
        Some(Source::Resume(ID)),
        ID,
        &flags(),
        Some("tree".to_string()),
        (
            vec![("A".to_string(), "1".to_string())],
            vec!["GONE".to_string()],
        ),
        "minted",
        77,
        "new-key".to_string(),
    )
    .ok()
    .unwrap();
    let r = &launch.record;
    assert_eq!((r.workspace.as_str(), r.cwd.as_str()), ("x", "/x"));
    assert_eq!(r.branch.as_deref(), Some("b"));
    assert_eq!(r.name.as_deref(), Some("mine"));
    assert_eq!((r.created_at, r.state_since), (10, 77));
    assert_eq!(r.ask_token, "new-key");
    assert_eq!(
        launch.env,
        vec![
            ("A".to_string(), "1".to_string()),
            ("ORCH_POST_TOKEN".to_string(), "minted".to_string()),
        ]
    );
    assert_eq!(launch.unset, vec!["GONE"]);
    let plain = spawn_session_with_id(
        &list,
        "agent",
        "x",
        Some("/x"),
        pass("fix-pr"),
        None,
        ID,
        &flags(),
        None,
        (vec![], vec![]),
        "minted",
        1,
        String::new(),
    );
    assert_eq!(plain.ok().unwrap().env, vec![]);
    let unknown = spawn_session_with_id(
        &list,
        "agent",
        "x",
        None,
        None,
        None,
        ID,
        &flags(),
        None,
        (vec![], vec![]),
        "minted",
        1,
        String::new(),
    );
    assert_eq!(words(unknown), "unknown workspace x");
}

#[test]
fn a_fork_is_told_what_travelled() {
    let fork = worktree_record(session(ID), Some("t".to_string()), Some(7), None);
    assert!(fork.had_a_turn);
    assert_eq!(fork.forked_from, Some(7));
    assert_eq!(
        fork.arrival_notice.as_deref(),
        Some(
            "You are a fork, in a new worktree at /w cut from the commit the conversation you \
             are replaying was on. It is not the tree that conversation was written in, so \
             re-read before trusting a remembered path. The original tree had no uncommitted \
             work to carry."
        )
    );
    let launch = worktree_launch(
        "agent",
        "w",
        "/w",
        Some(7),
        ID,
        &flags(),
        Some("t".to_string()),
        None,
        (
            vec![("A".to_string(), "1".to_string())],
            vec!["GONE".to_string()],
        ),
        10,
        "key".to_string(),
    );
    assert_eq!(launch.command.len(), 7);
    assert_eq!(launch.env, vec![("A".to_string(), "1".to_string())]);
    assert_eq!(launch.unset, vec!["GONE"]);
    assert_eq!(launch.record.arrival_notice, fork.arrival_notice);
    assert_eq!(launch.record.branch.as_deref(), Some("t"));
    let plain = worktree_record(session(ID), None, None, Some("x"));
    assert!(!plain.had_a_turn && plain.arrival_notice.is_none());
    let files = |n: usize| (0..n).map(|i| format!("f{i}")).collect::<Vec<_>>();
    assert_eq!(carry_into(&Ok(false), Some(&files(0))), None);
    assert_eq!(carry_into(&Ok(false), None), None);
    assert_eq!(
        carry_into(&Ok(true), Some(&files(1))).as_deref(),
        Some(
            "its uncommitted changes were carried in with it. 1 untracked file stayed in the \
             original tree and is NOT here: f0"
        )
    );
    assert_eq!(
        carry_into(&Err("no".to_string()), Some(&files(6))).as_deref(),
        Some(
            "its uncommitted changes could NOT be carried in (no). 6 untracked files stayed in \
             the original tree and are NOT here: f0, f1, f2, f3, and 2 more"
        )
    );
    assert_eq!(worktree_base(Some("sha"), "origin/main"), "sha");
    assert_eq!(worktree_base(None, "origin/main"), "origin/main");
}

fn start_of(main: bool, resume: Option<Source>, fails: Option<Step>) -> Vec<Step> {
    let mut out = Vec::new();
    let mut step = Some(first_step(main));
    while let Some(s) = step {
        out.push(s);
        step = spawn_session(s, fails != Some(s), main, resume);
    }
    out
}

fn start(main: bool, fails: Option<Step>) -> Vec<Step> {
    start_of(main, None, fails)
}

#[test]
fn a_continued_conversation_is_released_before_it_runs() {
    for resume in [Source::Resume(ID), Source::Fork(ID)] {
        let all = start_of(false, Some(resume), None);
        assert_eq!(
            all,
            vec![
                Step::Find,
                Step::ClearPin,
                Step::Prepare,
                Step::CheckRoom,
                Step::Insert,
                Step::StartPty,
                Step::Attach,
                Step::Watch,
                Step::CheckVersion,
                Step::Notify,
            ]
        );
        // A pin that could not be cleared ends nothing.
        assert_eq!(start_of(false, Some(resume), Some(Step::ClearPin)), all);
        let unknown = start_of(true, Some(resume), Some(Step::Find));
        assert_eq!(
            unknown,
            vec![Step::ClaimMain, Step::Find, Step::ReleaseMain]
        );
    }
    assert!(!start(true, None).contains(&Step::ClearPin));
}

#[test]
fn a_started_session_is_watched_its_version_looked_at_and_told() {
    let all = start(true, None);
    assert_eq!(
        all[all.len() - 4..],
        [
            Step::ReclaimMain,
            Step::Watch,
            Step::CheckVersion,
            Step::Notify
        ]
    );
    assert!(!start(true, Some(Step::StartPty)).contains(&Step::Watch));
}

#[test]
fn a_record_is_in_before_its_process_and_out_where_there_is_none() {
    let all = start(true, None);
    let at = |s: Step| all.iter().position(|x| *x == s).unwrap();
    assert!(at(Step::ClaimMain) < at(Step::Insert));
    assert!(at(Step::Insert) < at(Step::StartPty));
    assert!(at(Step::StartPty) < at(Step::Attach));
    assert!(!all.contains(&Step::ReleaseMain) && !all.contains(&Step::TakeBack));
    let failed = start(true, Some(Step::StartPty));
    assert!(failed.contains(&Step::TakeBack));
    assert_eq!(failed.last(), Some(&Step::ReleaseMain));
    assert!(!start(false, Some(Step::StartPty)).contains(&Step::ReleaseMain));
    assert!(!start(false, Some(Step::CheckRoom)).contains(&Step::Insert));
    assert_eq!(start(true, Some(Step::ClaimMain)), vec![Step::ClaimMain]);
}

#[test]
fn a_record_is_put_in_filled_and_taken_back() {
    let mut list = vec![session(1), session(2)];
    let mut again = session(2);
    again.name = Some("new".to_string());
    insert_record(&mut list, again);
    assert_eq!(list.len(), 2);
    assert_eq!(list[1].name.as_deref(), Some("new"));
    insert_record(&mut list, session(3));
    assert_eq!(list.len(), 3);
    let pty = Pty {
        handle: 8,
        alive: true,
    };
    attach(&mut list, 3, pty, Some(77));
    let three = list.iter().find(|s| s.id == 3).unwrap();
    assert_eq!((three.pty.unwrap().handle, three.pid), (8, Some(77)));
    assert_eq!(remove_record(&mut list, 3).unwrap().id, 3);
    assert!(remove_record(&mut list, 3).is_none());
    assert_eq!(list.len(), 2);
    assert!(room_for_a_session(None).is_ok());
    assert_eq!(
        words(room_for_a_session(Some("no memory"))),
        "not starting a session: no memory"
    );
    assert_eq!(spawn_session_confirmed(ID, true, None).ok(), Some(ID));
    assert_eq!(
        words(spawn_session_confirmed(ID, false, None)),
        "session aaaabbbb was gone before it could be confirmed"
    );
    assert_eq!(
        words(spawn_session_confirmed(ID, true, Some(-1))),
        "session aaaabbbb exited immediately, code -1"
    );
}

#[test]
fn an_exit_settles_its_own_record() {
    let mut s = session(ID);
    s.had_a_turn = true;
    s.state = State::Working;
    s.pty = Some(Pty {
        handle: 4,
        alive: false,
    });
    s.pass = pass("review");
    s.fix_pr_on_exit = true;
    let mut list = vec![s];
    // Resumed under another terminal: not this observer's to settle.
    assert!(watch_session_exit(&mut list, ID, 3, None, 50).is_none());
    assert!(matches!(list[0].state, State::Working));
    let settled = watch_session_exit(&mut list, ID, 4, Some("/t".to_string()), 50).unwrap();
    assert_eq!(settled.workspace.as_deref(), Some("w"));
    assert_eq!(settled.posting_for, Some(12));
    let ended = settled.ended.unwrap();
    assert!(ended.hand_off && ended.session == ID);
    assert!(settled.forget.is_none());
    assert!(matches!(list[0].state, State::Exited));
    assert_eq!(list[0].state_since, 50);
    assert_eq!(list[0].transcript_path.as_deref(), Some("/t"));
    let gone = watch_session_exit(&mut list, 9, 4, None, 50).unwrap();
    assert!(gone.workspace.is_none() && gone.ended.is_none());
}

#[test]
fn a_session_that_never_spoke_is_forgotten() {
    let mut list = vec![session(1), session(ID)];
    let settled = watch_session_exit(&mut list, ID, 4, Some("/t".to_string()), 50).unwrap();
    assert_eq!(
        settled.forget,
        Some(("/w".to_string(), Some("/t".to_string())))
    );
    assert_eq!(list.len(), 1);
    let mut run = vec![session(ID)];
    run[0].pass = pass("fix-pr");
    let kept = watch_session_exit(&mut run, ID, 4, None, 50).unwrap();
    assert!(kept.forget.is_none() && kept.posting_for.is_none());
    assert_eq!(run.len(), 1);
}

fn owes(e: Ended) -> Vec<Owed> {
    let mut out = Vec::new();
    let mut last = None;
    while let Some(next) = exit_owes(last, e) {
        out.push(next);
        last = Some(next);
    }
    out
}

#[test]
fn an_exit_pays_what_it_owes_in_order() {
    let quiet = Ended {
        forgotten: false,
        at: Place::Tree,
        reaps: true,
        unposted: false,
        run: false,
        still_live: true,
    };
    assert_eq!(
        owes(quiet),
        vec![Owed::ReleaseMain, Owed::Reconcile, Owed::Notify]
    );
    assert_eq!(
        owes(Ended {
            forgotten: true,
            still_live: false,
            ..quiet
        }),
        vec![
            Owed::DeleteTranscript,
            Owed::ReportAgent,
            Owed::Teardown,
            Owed::ReleaseMain,
            Owed::StopProcesses,
            Owed::Reconcile,
            Owed::Notify,
        ]
    );
    let last = Ended {
        forgotten: true,
        at: Place::Main,
        reaps: true,
        unposted: true,
        run: true,
        still_live: false,
    };
    let main = owes(last);
    assert!(!main.contains(&Owed::Teardown));
    assert!(main.contains(&Owed::ParkMain) && main.contains(&Owed::WarnNothingPosted));
    // The end of a run may start another session: then main is not parked under it.
    let busy = Ended {
        still_live: true,
        ..last
    };
    assert_eq!(
        exit_owes(Some(Owed::PublishEnd), last),
        Some(Owed::StopProcesses)
    );
    assert_eq!(
        exit_owes(Some(Owed::PublishEnd), busy),
        Some(Owed::Reconcile)
    );
    assert_eq!(exit_owes(Some(Owed::Notify), last), None);
    assert_eq!(place_of(Some("main")), Place::Main);
    assert_eq!(place_of(Some(PENDING_WORKTREE)), Place::Pending);
    assert_eq!(place_of(Some("w")), Place::Tree);
    assert_eq!(place_of(None), Place::Unknown);
}

#[test]
fn what_is_known_of_an_exit_is_what_it_settled() {
    let mut list = vec![session(ID)];
    list[0].pass = pass("review");
    let settled = watch_session_exit(&mut list, ID, 4, None, 50).unwrap();
    assert_eq!(
        after_exit(&settled, 0, false, true),
        Ended {
            forgotten: false,
            at: Place::Tree,
            reaps: false,
            unposted: true,
            run: true,
            still_live: true,
        }
    );
    assert!(!after_exit(&settled, 7, true, true).unposted);
    assert!(after_exit(&settled, 7, true, true).reaps);
}

#[test]
fn no_id_is_listed_twice() {
    let mut list = Vec::new();
    for id in [1u128, 2, 1, 3, 2] {
        insert_record(&mut list, session(id));
    }
    let ids = |l: &Vec<Session>| l.iter().map(|s| s.id).collect::<Vec<_>>();
    assert_eq!(ids(&list), vec![1, 2, 3]);
    remove_record(&mut list, 2);
    assert_eq!(ids(&list), vec![1, 3]);
}

#[test]
fn an_agent_that_could_not_start_is_quoted() {
    assert_eq!(
        agent_error(3, false, b"\x1b[31mno key\x1b[0m\nmore").as_deref(),
        Some("the agent exited at once (3): no key")
    );
    assert_eq!(
        agent_error(-1, false, b"").as_deref(),
        Some("the agent exited at once (-1) and said nothing")
    );
    assert_eq!(agent_error(0, false, b"x"), None);
    assert_eq!(agent_error(3, true, b"x"), None);
    // Bytes that are no text are still read.
    assert_eq!(
        agent_error(1, false, b"bad \xff byte").as_deref(),
        Some("the agent exited at once (1): bad \u{fffd} byte")
    );
    assert_eq!(strip_escapes("a\u{1b}[1;2mb\u{1b}]0;t\u{7}c\u{1b}Zd"), "abcd");
    assert_eq!(strip_escapes("x\u{1b}[1"), "x");
    // A title that ends with its long terminator leaves nothing of it behind.
    assert_eq!(strip_escapes("\u{1b}]0;t\u{1b}\\done"), "done");
    assert_eq!(
        complaint_in(&"y".repeat(201)).unwrap(),
        format!("{}\u{2026}", "y".repeat(200))
    );
    assert_eq!(complaint_in(&"y".repeat(200)).unwrap(), "y".repeat(200));
    assert!(drained(true, false) && drained(false, true) && !drained(false, false));
}

#[test]
fn a_run_is_started_with_what_it_needs() {
    let vars = VarNames {
        pr: "PR".to_string(),
        upstream: "UP".to_string(),
        upstream_remote: "REMOTE".to_string(),
        login: "LOGIN".to_string(),
    };
    let spec = spawn_fix_pr_session(
        &vars,
        12_034,
        "origin/main",
        "origin",
        Some("release"),
        Some("me"),
    );
    let pair = |k: &str, v: &str| (k.to_string(), v.to_string());
    assert_eq!(spec.pending, "/orchd:fix-pr 12034");
    assert!(!spec.asks);
    assert_eq!(
        spec.extra_env,
        vec![
            pair("COMPOSE_PROJECT_NAME", "orchd-pr-12034"),
            pair("ORCHD_PORT_BASE", "20680"),
            pair("PR", "12034"),
            pair("UP", "origin/release"),
            pair("REMOTE", "origin"),
            pair("LOGIN", "me"),
        ]
    );
    let launch = spawn_run(
        &spec,
        "agent",
        "w",
        Some("/w"),
        12_034,
        ID,
        &flags(),
        (vec![], vec!["GONE".to_string()]),
        "minted",
        5,
        "key".to_string(),
    )
    .ok()
    .unwrap();
    assert_eq!(
        launch.command,
        vec!["agent", "--session-id", ID_TEXT, "--flag"]
    );
    assert_eq!(launch.env.len(), 6);
    assert_eq!(launch.unset, vec!["GONE"]);
    assert_eq!(
        launch.record.pending_prompt.as_deref(),
        Some("/orchd:fix-pr 12034")
    );
    assert_eq!(spec.ask_token(&launch.record), None);
    let gone = spawn_run(
        &spec,
        "agent",
        "w",
        None,
        1,
        ID,
        &flags(),
        (vec![], vec![]),
        "minted",
        5,
        String::new(),
    );
    assert_eq!(words(gone), "worktree vanished");
    assert_eq!(post_token_for(&pass("review")), Some(12));
    assert_eq!(post_token_for(&pass("fix-pr")), None);
    assert_eq!(post_token_for(&None), None);
    assert_eq!(
        run_env(
            (vec![pair("A", "1")], vec!["GONE".to_string()]),
            Some("t"),
            &vec![pair("B", "2")]
        ),
        (
            vec![pair("A", "1"), pair("ORCH_POST_TOKEN", "t"), pair("B", "2")],
            vec!["GONE".to_string()]
        )
    );
    assert_eq!(
        words(refuse_if_branch_is_busy(Some("w"), 12)),
        "w already has a live session for #12; finish or close it first"
    );
    assert!(refuse_if_branch_is_busy(None, 12).is_ok());
}

#[test]
fn runs_side_by_side_share_no_ports() {
    let vars = || VarNames {
        pr: String::new(),
        upstream: String::new(),
        upstream_remote: String::new(),
        login: String::new(),
    };
    let base = |pr| {
        spawn_fix_pr_session(&vars(), pr, "u", "r", None, None).extra_env[1]
            .1
            .parse::<u32>()
            .unwrap()
    };
    assert_eq!((base(7), base(8)), (20_140, 20_160));
    assert_eq!(base(999) + 19, 39_999);
    // Only the last three digits count.
    assert_eq!(base(1_007), base(7));
}

#[test]
fn main_goes_back_to_its_base_when_nothing_is_in_the_way() {
    let asked = |shutting_down, live_in_main, swap_free| {
        park_main(ParkNews::Asked {
            shutting_down,
            live_in_main,
            swap_free,
        })
    };
    assert_eq!(asked(false, false, true), Park::Measure);
    assert_eq!(asked(true, false, true), Park::Stay);
    assert_eq!(asked(false, true, true), Park::Stay);
    assert_eq!(asked(false, false, false), Park::Stay);
    let measured = |parkable, holder| park_main(ParkNews::Measured { parkable, holder });
    assert_eq!(measured(true, Holder::Nobody), Park::Switch);
    assert_eq!(measured(true, Holder::Idle), Park::Release);
    assert_eq!(measured(true, Holder::Busy), Park::Stay);
    assert_eq!(measured(true, Holder::Stranger), Park::Stay);
    assert_eq!(measured(false, Holder::Nobody), Park::Stay);
    assert_eq!(park_main(ParkNews::Released { ok: true }), Park::Forget);
    assert_eq!(park_main(ParkNews::Forgotten), Park::Switch);
    assert_eq!(park_main(ParkNews::Released { ok: false }), Park::Stay);
    assert_eq!(
        park_main(ParkNews::Switched { moved: true }),
        Park::Reconcile
    );
    assert!(parkable(Some("main"), Some("x"), Some(true)));
    assert!(!parkable(Some("main"), Some("main"), Some(true)));
    assert!(!parkable(Some("main"), Some("x"), None));
    assert!(!parkable(None, Some("x"), Some(true)));
    assert_eq!(base_holder(Some("/main"), "/main", true, true), Holder::Nobody);
    assert_eq!(base_holder(None, "/main", true, true), Holder::Nobody);
    assert_eq!(base_holder(Some("/t"), "/main", false, false), Holder::Stranger);
    assert_eq!(base_holder(Some("/t"), "/main", true, true), Holder::Busy);
    assert_eq!(base_holder(Some("/t"), "/main", true, false), Holder::Idle);
    assert_eq!(released_stem("/trees/pr-7"), "worktree-pr-7");
    assert_eq!(released_stem("/"), "worktree-");
}

#[test]
fn main_is_switched_only_when_free_and_clean() {
    assert!(switch_main_to_pr(None, true).is_ok());
    assert_eq!(
        words(switch_main_to_pr(Some(ID), true)),
        "a session already holds main (aaaabbbb); end it before moving the checkout"
    );
    assert_eq!(
        words(switch_main_to_pr(None, false)),
        "the main checkout has uncommitted changes; commit or stash them first"
    );
}

#[test]
fn a_pr_gets_a_worktree_once() {
    let pair = |a: &str, b: &str| (a.to_string(), b.to_string());
    assert_eq!(pr_worktree_at(None, 7, "/trees"), pair("pr-7", "/trees/pr-7"));
    assert_eq!(
        pr_worktree_at(Some(pair("old", "/elsewhere/old")), 7, "/trees"),
        pair("old", "/elsewhere/old")
    );
    let first = |name, standing, taken, on| pr_worktree_first(name, standing, taken, on).ok();
    assert_eq!(first("..", true, false, true), Some(PrTree::Standing));
    assert_eq!(first("pr-7", false, true, true), Some(PrTree::Record));
    assert_eq!(
        first("pr-7", false, false, true),
        Some(PrTree::LookUnderLock)
    );
    assert_eq!(first("pr-7", false, false, false), Some(PrTree::Cut));
    assert_eq!(
        words(pr_worktree_first("..", false, false, false)),
        "worktree name may not start with '.' or contain '..'"
    );
    let locked = |lock, on, live, base| {
        pr_worktree_locked(lock, on, live, base, 7, "head", "origin/main")
    };
    assert_eq!(locked(true, true, false, true).ok(), Some(PrTree::MoveOut));
    assert_eq!(locked(true, false, true, false).ok(), Some(PrTree::Cut));
    assert_eq!(
        words(locked(false, true, false, true)),
        "the main checkout is on #7's branch and a swap is already moving it; give it a moment \
         and look at the rail before asking again"
    );
    assert_eq!(
        words(locked(true, true, true, true)),
        "the main checkout is on head and a session is still open there, so the branch cannot \
         move out of it — and git will not check a branch out twice, which leaves no worktree to \
         cut for #7. Close that session, or move it out of main from its context menu, and try \
         again."
    );
    assert_eq!(
        words(locked(true, true, false, false)),
        "no base branch to put main back on — origin/main has not been fetched"
    );
    assert_eq!(
        ensure_pr_worktree(PrTree::MoveOut),
        vec![
            PrTreeStep::MoveBranchOut,
            PrTreeStep::ForgetInMain,
            PrTreeStep::ReconcileMain,
            PrTreeStep::RunHooks,
            PrTreeStep::Register,
        ]
    );
    assert_eq!(
        ensure_pr_worktree(PrTree::Cut),
        vec![
            PrTreeStep::CutTree,
            PrTreeStep::RunHooks,
            PrTreeStep::Register
        ]
    );
    assert_eq!(ensure_pr_worktree(PrTree::Record), vec![PrTreeStep::Register]);
    assert!(ensure_pr_worktree(PrTree::Standing).is_empty());
    assert!(main_is_on(Some("head"), "head") && !main_is_on(None, "head"));
    assert_eq!(branch_busy(Some("w"), true).as_deref(), Some("w"));
    assert_eq!(branch_busy(Some("w"), false), None);
    assert_eq!(
        recorded_worktree_for(Some("w".to_string()), None),
        None
    );
}

#[test]
fn a_name_is_refused_for_one_reason_at_a_time() {
    for (name, why) in [
        ("", "worktree name is empty"),
        (
            "a b",
            "worktree name may only contain letters, digits, '-', '_' and '.'",
        ),
        (
            "é",
            "worktree name may only contain letters, digits, '-', '_' and '.'",
        ),
        (
            ".a",
            "worktree name may not start with '.' or contain '..'",
        ),
        (
            "a..b",
            "worktree name may not start with '.' or contain '..'",
        ),
    ] {
        assert_eq!(words(validate_worktree_name(name)), why, "{name}");
    }
    assert!(validate_worktree_name(&"a".repeat(64)).is_ok());
    assert_eq!(
        words(validate_worktree_name(&"a".repeat(65))),
        "worktree name is too long"
    );
    assert!(validate_worktree_name("a.b-c_d").is_ok());
}

#[test]
fn a_turn_that_is_waited_for_is_no_turn_that_was_cut_off() {
    let mut s = session(ID);
    s.wait_for(TurnReason::AskedAQuestion, 20);
    assert!(matches!(
        s.state,
        State::YourTurn {
            since: 20,
            reason: TurnReason::AskedAQuestion
        }
    ));
}
