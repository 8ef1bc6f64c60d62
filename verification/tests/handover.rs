use std::collections::HashMap;

use orchd::api::open::Pr;
use orchd::api::talk::Keys;
use orchd::api::ApiError;
use orchd::managed::{
    known_workspace, process_ended, scan, shell_exited, spawn_shell, start_managed, stop_managed,
    ManagedSpec, Stop,
};
use orchd::model::{
    Health, Pass, ProcKind, Process, Pty, Session, SessionId, State, TurnReason,
};
use orchd::post::{Posted, Thread, Threads};
use orchd::review_api::{
    after_write, answerable, file_at_base, gate_worktree, handoff_pr, one_batch_at_a_time,
    open_pr, pr_proposals, pr_resolve_run, pr_review, pr_run_rerequest, pr_triage_context,
    pr_triage_progress, proposals_posted, read_file, replied_threads, resolve_step,
    run_never_started, run_starting, session_handoff, start_posting_run, sweep_words_only,
    words_only, write_file, AfterWrite, FileQuery, OpenAt, OpenPr, PlanThread, ReadFrom,
    ResolveStep, ThreadStatus, TriageProgressBody, WordsStep, WriteBody,
};

const ID: SessionId = 0xaaaa_bbbb_0000_4000_8000_0000_0000_0001;
const ID_TEXT: &str = "aaaabbbb-0000-4000-8000-000000000001";

fn session(id: SessionId, command: Option<&str>) -> Session {
    let mut s = Session::new(
        id,
        "wt".to_string(),
        "/wt".to_string(),
        command.map(|c| Pass {
            pr: 12,
            command: c.to_string(),
        }),
        10,
        format!("key-{id}"),
    );
    s.state = State::Working;
    s
}

fn keys(ask: &str) -> Keys {
    Keys {
        app_token: "app".to_string(),
        ask: Some(ask.to_string()),
        token: None,
    }
}

fn run_keys(token: &str) -> Keys {
    Keys {
        app_token: "app".to_string(),
        ask: None,
        token: Some(token.to_string()),
    }
}

fn words<T>(r: Result<T, ApiError>) -> String {
    match r {
        Ok(_) => panic!("it was not refused"),
        Err(e) => e.message().to_string(),
    }
}

fn prs() -> Vec<Pr> {
    vec![Pr {
        number: 12,
        head_ref: "head".to_string(),
        head_sha: None,
        base_ref: "main".to_string(),
    }]
}

const UNPOLLED: &str = "PR #13 is not in the current poll";

#[test]
fn only_a_review_hands_over_and_only_where_it_is_watched() {
    let mut list = vec![
        session(ID, Some("review")),
        session(2, Some("fix-pr")),
        session(3, None),
    ];
    for id in [2u128, 3] {
        assert!(words(session_handoff(&mut list, &keys(&format!("key-{id}")), id, true))
            .contains("not one"));
    }
    assert_eq!(
        words(session_handoff(&mut list, &keys("key-3"), ID, true)),
        format!("bad ask token for session {ID_TEXT}")
    );
    let own = keys(&format!("key-{ID}"));
    assert_eq!(handoff_pr(&list, &own, ID).ok(), Some(12));
    assert_eq!(session_handoff(&mut list, &own, ID, true).ok(), Some(true));
    assert!(list[0].fix_pr_on_exit);
    assert_eq!(session_handoff(&mut list, &own, ID, false).ok(), Some(false));
    assert!(!list[0].fix_pr_on_exit);
    assert_eq!(
        words(handoff_pr(&list, &keys("app"), 9)),
        "only a review session hands over, and 00000000-0000-0000-0000-000000000009 is not one"
    );
}

#[test]
fn a_run_speaks_for_its_own_pr_alone() {
    let list = vec![session(ID, Some("review"))];
    let mut progress = HashMap::new();
    let body = TriageProgressBody { done: 2, total: 5 };
    let bad = "bad proposals token for PR #12";
    let post = |p: &mut HashMap<_, _>, list: &Vec<Session>, k: &Keys| {
        pr_triage_progress(list, p, Some("minted"), k, 12, &body)
    };
    assert_eq!(words(post(&mut progress, &list, &run_keys("other"))), bad);
    assert!(progress.is_empty());
    assert!(post(&mut progress, &list, &run_keys("minted")).is_ok());
    let at = progress[&12];
    assert_eq!((at.done, at.total, at.posted, at.session), (2, 5, false, ID));
    assert_eq!(
        words(post(&mut progress, &vec![], &run_keys("app"))),
        "no triage run for PR #12"
    );
    proposals_posted(&mut progress, 12);
    proposals_posted(&mut progress, 99);
    assert_eq!((progress[&12].done, progress[&12].posted), (5, true));
    assert!(!progress.contains_key(&99));
    // A late progress post does not unpost it.
    post(&mut progress, &list, &run_keys("minted")).unwrap();
    assert!(progress[&12].posted);

    let take = |k: &Keys, head| pr_proposals(Some("minted"), k, 12, head, "aaa", "a");
    assert!(take(&run_keys("minted"), None).is_ok());
    assert!(take(&run_keys("minted"), Some("aaa")).is_ok());
    assert_eq!(words(take(&run_keys("x"), None)), bad);
    assert_eq!(
        words(take(&run_keys("minted"), Some("bbb"))),
        "the branch moved during triage (a → bbb); its patches no longer apply"
    );
}

#[test]
fn a_triage_run_is_told_where_it_works() {
    let ask = |k: &Keys, repo: bool| {
        pr_triage_context(
            Some("minted"),
            k,
            12,
            repo.then(|| ("o".to_string(), "n".to_string())),
            None,
            "en".to_string(),
            Some("tracker.example".to_string()),
            7777,
            "origin/main",
            "origin",
            Some("release"),
        )
    };
    let c = ask(&run_keys("minted"), true).ok().unwrap();
    assert_eq!((c.owner.as_str(), c.repo.as_str(), c.tracker), ("o", "n", true));
    assert_eq!(
        c.proposals_url,
        "http://127.0.0.1:7777/api/pr/12/proposals"
    );
    assert_eq!(
        c.progress_url,
        "http://127.0.0.1:7777/api/pr/12/triage/progress"
    );
    assert_eq!(c.upstream, "origin/release");
    assert_eq!(
        words(ask(&run_keys("minted"), false)),
        "no GitHub repo configured and none on the remote"
    );
    assert_eq!(
        words(ask(&run_keys(""), true)),
        "bad proposals token for PR #12"
    );
}

fn threads(answerable: &[bool]) -> Threads {
    Threads {
        viewer: "me".to_string(),
        head_sha: Some("sha".to_string()),
        items: answerable
            .iter()
            .enumerate()
            .map(|(i, a)| Thread {
                id: format!("t{i}"),
                comments: vec![],
                answerable: *a,
            })
            .collect(),
    }
}

#[test]
fn a_run_starts_where_something_waits() {
    let some = threads(&[true, false, true]);
    assert_eq!(answerable(&some.items), vec!["t0", "t2"]);
    assert!(start_posting_run(&prs(), 12, &some).is_ok());
    assert_eq!(words(start_posting_run(&prs(), 13, &some)), UNPOLLED);
    assert_eq!(
        words(start_posting_run(&prs(), 12, &threads(&[false]))),
        "PR #12 has no threads awaiting an answer"
    );
    let shown = pr_review(
        &prs(),
        12,
        &some,
        Some(false),
        false,
        Some("dirty".to_string()),
        true,
    )
    .ok()
    .unwrap();
    assert_eq!((shown.answerable, shown.manual, shown.tracker), (2, false, true));
    assert_eq!(shown.blocked, None);
    assert_eq!(
        words(pr_review(&prs(), 13, &some, None, true, None, false)),
        UNPOLLED
    );
    assert!(one_batch_at_a_time(true, 12).is_ok());
    assert_eq!(
        words(one_batch_at_a_time(false, 12)),
        "a batch for PR #12 is already running; wait for it rather than sending a second one"
    );
}

#[test]
fn a_resolve_run_is_recorded_before_it_starts() {
    assert!(pr_resolve_run(&prs(), 12, true, None).is_ok());
    assert_eq!(words(pr_resolve_run(&prs(), 13, true, None)), UNPOLLED);
    assert_eq!(
        words(pr_resolve_run(&prs(), 12, false, Some("x"))),
        "PR #12 has no triage to carry out"
    );
    assert_eq!(
        words(pr_resolve_run(&prs(), 12, true, Some("dirty tree"))),
        "dirty tree"
    );
    let run = |fails: Option<ResolveStep>| {
        let mut out = Vec::new();
        let (mut last, mut ok) = (None, true);
        while let Some(s) = resolve_step(last, ok) {
            out.push(s);
            ok = fails != Some(s);
            last = Some(s);
        }
        out
    };
    assert_eq!(
        run(None),
        vec![
            ResolveStep::Check,
            ResolveStep::FetchThreads,
            ResolveStep::Plan,
            ResolveStep::Record,
            ResolveStep::Start,
            ResolveStep::Sweep,
        ]
    );
    assert_eq!(
        run(Some(ResolveStep::Start))[3..].to_vec(),
        vec![
            ResolveStep::Record,
            ResolveStep::Start,
            ResolveStep::TakeBack
        ]
    );
    assert_eq!(run(Some(ResolveStep::Plan)).len(), 3);
}

fn plan_thread(id: &str, status: ThreadStatus, reply: Option<&str>, thumbs_up: bool) -> PlanThread {
    PlanThread {
        thread_id: id.to_string(),
        status,
        reply: reply.map(str::to_string),
        story: None,
        thumbs_up,
        note: None,
    }
}

#[test]
fn what_needs_no_code_is_answered_at_once() {
    let plan = || {
        vec![
            plan_thread("code", ThreadStatus::Pending, Some("r"), false),
            plan_thread("said", ThreadStatus::WordsOnly, Some("r"), false),
            plan_thread("story", ThreadStatus::WordsOnly, Some("r"), false),
            plan_thread("down", ThreadStatus::WordsOnly, Some("r"), true),
            plan_thread("up", ThreadStatus::WordsOnly, None, true),
            plan_thread("none", ThreadStatus::WordsOnly, None, false),
        ]
    };
    let steps: Vec<WordsStep> = plan().iter().map(words_only).collect();
    assert_eq!(
        steps,
        vec![
            WordsStep::Leave,
            WordsStep::Reply,
            WordsStep::Reply,
            WordsStep::Reply,
            WordsStep::ThumbsUp,
            WordsStep::Done,
        ]
    );
    let outcomes = vec![
        Ok(Some(Posted::Sent)),
        Ok(Some(Posted::AlreadyThere)),
        Ok(Some(Posted::HeldNoStory("no tracker".to_string()))),
        Err("offline".to_string()),
        Ok(None),
        // Nothing was to be said, so nothing can fail.
        Err("never asked".to_string()),
    ];
    let mut p = plan();
    assert_eq!(sweep_words_only(&mut p, Some(&outcomes)), 3);
    let seen: Vec<(ThreadStatus, Option<&str>)> =
        p.iter().map(|t| (t.status, t.note.as_deref())).collect();
    assert_eq!(
        seen,
        vec![
            (ThreadStatus::Pending, None),
            (ThreadStatus::Replied, None),
            (
                ThreadStatus::WordsOnly,
                Some("story not filed — no tracker")
            ),
            (ThreadStatus::WordsOnly, Some("could not answer — offline")),
            (ThreadStatus::Replied, None),
            (ThreadStatus::Replied, None),
        ]
    );
    let mut untouched = plan();
    assert_eq!(sweep_words_only(&mut untouched, None), 0);
    assert_eq!(untouched[1].status, ThreadStatus::WordsOnly);
    let mut runs = HashMap::new();
    run_starting(&mut runs, 12, ID, p);
    assert_eq!(replied_threads(&runs, 12), vec!["said", "up", "none"]);
    assert!(!runs[&12].ended && runs[&12].session == ID);
    run_never_started(&mut runs, 12);
    assert!(replied_threads(&runs, 12).is_empty());
    let pair = |a: &str, b: &str| vec![(a.to_string(), b.to_string())];
    assert_eq!(
        pr_run_rerequest(&pair("ann", "gone"), &pair("bob", "t1")),
        (
            vec!["ann: gone".to_string()],
            vec!["bob — t1 is still unanswered".to_string()]
        )
    );
}

#[test]
fn a_pr_is_opened_where_it_was_asked_for() {
    let open = |place: &str, pr, free| {
        open_pr(
            &OpenPr {
                place: place.to_string(),
            },
            &prs(),
            pr,
            free,
        )
    };
    assert_eq!(open("worktree", 12, false).ok(), Some(OpenAt::Worktree));
    assert_eq!(open("main", 12, true).ok(), Some(OpenAt::Main));
    assert_eq!(words(open("main", 13, true)), UNPOLLED);
    assert_eq!(words(open("attic", 12, true)), "unknown place attic");
    assert_eq!(
        words(open("main", 12, false)),
        "a swap is already running; it moves main's checkout, so give it a moment and look at \
         the rail before asking again"
    );
    let gate = |pr, ws, path: Option<&str>| {
        gate_worktree(&prs(), pr, ws, path.map(str::to_string))
    };
    assert_eq!(gate(12, true, Some("/w")).ok().as_deref(), Some("/w"));
    assert_eq!(words(gate(13, true, None)), UNPOLLED);
    assert_eq!(words(gate(12, false, None)), "no worktree for PR #12 yet");
    assert_eq!(
        words(gate(12, true, None)),
        "the worktree for PR #12 vanished"
    );
}

#[test]
fn a_file_is_read_from_its_tree_or_from_a_base() {
    let q = |base: Option<&str>| FileQuery {
        workspace: "w".to_string(),
        path: "a.txt".to_string(),
        base: base.map(str::to_string),
        pr_base: None,
    };
    assert_eq!(read_file(&q(None), true).ok(), Some(ReadFrom::Tree));
    assert_eq!(read_file(&q(Some("head")), true).ok(), Some(ReadFrom::Base));
    assert_eq!(words(read_file(&q(None), false)), "unknown workspace w");
    let c = file_at_base(&q(Some("head")), "né".to_string());
    assert_eq!((c.path.as_str(), c.bytes, c.version.as_str()), ("a.txt", 3, ""));
    let body = WriteBody {
        workspace: "w".to_string(),
        path: "a.txt".to_string(),
        content: String::new(),
        version: "1".to_string(),
    };
    assert_eq!(write_file(&body, Some("/w")).ok().as_deref(), Some("/w"));
    assert_eq!(words(write_file(&body, None)), "unknown workspace w");
    assert_eq!(after_write(true), AfterWrite::RecordAndReconcile);
    assert_eq!(after_write(false), AfterWrite::Nothing);
}

// ---------------------------------------------------------------------------
// Processes
// ---------------------------------------------------------------------------

fn spec(stop: &[&str]) -> ManagedSpec {
    ManagedSpec {
        name: "web".to_string(),
        command: vec!["serve".to_string()],
        stop_command: stop.iter().map(|s| s.to_string()).collect(),
    }
}

fn pty(handle: u64) -> Pty {
    Pty {
        handle,
        alive: true,
    }
}

#[test]
fn a_process_is_stopped_its_own_way_first() {
    assert_eq!(
        stop_managed(Some(&spec(&["down"])), true),
        vec![Stop::RunStopCommand, Stop::Kill]
    );
    assert_eq!(stop_managed(Some(&spec(&["down"])), false), vec![Stop::Kill]);
    assert_eq!(stop_managed(Some(&spec(&[])), true), vec![Stop::Kill]);
    assert_eq!(stop_managed(None, true), vec![Stop::Kill]);
    assert!(known_workspace("w", true).is_ok());
    assert_eq!(words(known_workspace("w", false)), "unknown workspace w");
}

#[test]
fn a_restart_leaves_no_process_behind() {
    let mut list: Vec<Process> = Vec::new();
    let (id, kill) = start_managed(&mut list, "w", &spec(&[]), "/w", pty(1));
    assert_eq!(id, "w:web");
    assert!(kill.is_empty());
    let (_, kill) = start_managed(&mut list, "w", &spec(&[]), "/w", pty(2));
    assert_eq!(kill.iter().map(|p| p.handle).collect::<Vec<_>>(), vec![1]);
    assert_eq!(list.len(), 1);
    assert_eq!(list[0].pty.unwrap().handle, 2);
    assert_eq!(list[0].health, Health::Starting);
    process_ended(&mut list, "w:web");
    assert_eq!(list[0].health, Health::Dead);
}

#[test]
fn a_shell_that_died_keeps_its_code() {
    let mut list: Vec<Process> = Vec::new();
    let id = spawn_shell(&mut list, "w", "/w", pty(1), ID);
    assert_eq!(id, "w:shell:aaaabbbb000040008000000000000001");
    let other = spawn_shell(&mut list, "w", "/w", pty(2), 7);
    shell_exited(&mut list, &id, 130);
    assert!(matches!(
        list[0].kind,
        ProcKind::Shell {
            exit_code: Some(130)
        }
    ));
    assert_eq!(list[0].health, Health::Dead);
    shell_exited(&mut list, &other, 0);
    assert_eq!(list.len(), 1);
}

#[test]
fn a_build_speaks_to_whoever_rests_beside_it() {
    let mut list: Vec<Process> = Vec::new();
    let (id, _) = start_managed(&mut list, "wt", &spec(&[]), "/wt", pty(1));
    let turn = || State::YourTurn {
        since: 10,
        reason: TurnReason::TurnComplete,
    };
    let mut idle = session(1, None);
    idle.state = turn();
    let mut away = session(2, None);
    away.state = turn();
    away.workspace = "x".to_string();
    let mut sessions = vec![idle, away, session(3, None)];
    let red = Health::Failing {
        summary: "E1".to_string(),
    };
    assert!(scan(&mut list, &mut sessions, "wt", &id, &red, 20));
    assert!(matches!(&sessions[0].state, State::BuildFailing { summary } if summary == "E1"));
    assert!(matches!(sessions[1].state, State::YourTurn { .. }));
    assert!(matches!(sessions[2].state, State::Working));
    // The same news again is none.
    assert!(!scan(&mut list, &mut sessions, "wt", &id, &red, 21));
    assert!(scan(&mut list, &mut sessions, "wt", &id, &Health::Fine, 30));
    assert!(matches!(
        sessions[0].state,
        State::YourTurn {
            since: 30,
            reason: TurnReason::TurnComplete
        }
    ));
    assert!(!scan(&mut list, &mut sessions, "wt", "gone", &red, 40));
}
