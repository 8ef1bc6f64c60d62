use orchd::model::{Moment, Pass, Session};
use orchd::spawn::record::Carried;
use orchd::spawn::{
    agent_complaint, rebase_target, validate_worktree_name, worktree_name_of, RunSpec,
};

const NOW: Moment = 9_000_000_000_000_000;

fn session(id: u128) -> Session {
    Session::new(
        id,
        "wt".to_string(),
        "/tmp".to_string(),
        None,
        NOW,
        "token".to_string(),
    )
}

#[test]
fn a_run_rebases_onto_the_prs_own_base_not_the_global_one() {
    // The ordinary case: same base as configured, so the ref is unchanged.
    assert_eq!(
        rebase_target("upstream/develop", "upstream", Some("develop")),
        "upstream/develop"
    );
    // A release-branch PR: the run must target that branch, not develop.
    assert_eq!(
        rebase_target("upstream/develop", "upstream", Some("release/2.0")),
        "upstream/release/2.0"
    );
    // Not in the poll, or GitHub named no base: fall back to the configured ref.
    assert_eq!(rebase_target("origin/main", "origin", None), "origin/main");
    assert_eq!(
        rebase_target("origin/main", "origin", Some("")),
        "origin/main"
    );
}

#[test]
fn the_agent_complaint_is_its_first_line_without_escapes() {
    // A clear, a home, and a title sequence: what anything writes to a pty before it
    // says a word.
    let buf = b"\x1b[2J\x1b[H\x1b]0;a title\x07Error: not installed.\r\nhow to fix it\r\n";
    assert_eq!(
        agent_complaint(buf).as_deref(),
        Some("Error: not installed."),
        "the first line with anything in it, and no escapes left in it"
    );
    assert_eq!(agent_complaint(b"").as_deref(), None, "said nothing");
    assert_eq!(
        agent_complaint(b"\r\n   \r\n").as_deref(),
        None,
        "whitespace is saying nothing"
    );
    let long = agent_complaint(&vec![b'x'; 400]).expect("a long line still answers");
    assert!(
        long.chars().count() <= 201,
        "the bar is one line tall: {}",
        long.chars().count()
    );
}

#[test]
fn a_run_spec_puts_the_prompt_on_the_record_before_the_spawn() {
    let spec = RunSpec {
        command: Pass::FIX_PR.to_string(),
        pending: "/orchd:fix-pr 7".to_string(),
        asks: true,
        extra_env: Vec::new(),
    };
    let id = 77u128;
    let s = spec.session(id, "pr-7", "/tmp".to_string(), 7, NOW, "token".to_string());
    assert_eq!(s.pending_prompt.as_deref(), Some("/orchd:fix-pr 7"));
    assert_eq!(s.id, id);
    assert!(matches!(
        &s.pass,
        Some(Pass { pr: 7, command }) if command == Pass::FIX_PR
    ));
}

#[test]
fn a_resume_carries_every_field_it_says_it_does() {
    let parent = 42u128;
    let began: Moment = 1_000_000_000_000_000;
    let mut prev = session(1);
    prev.interrupted = true;
    prev.had_a_turn = true;
    prev.branch = Some("feature/x".into());
    prev.arrival_notice = Some("moved while you were away".into());
    prev.name = Some("the one you named".into());
    prev.spawned_by = Some(parent);
    prev.spawn_cut_worktree = true;
    prev.forked_from = Some(parent);
    prev.created_at = began;

    let mut next = session(2);
    let branch = Carried::from(Some(&prev), false).apply(&mut next);

    assert_eq!(branch.as_deref(), Some("feature/x"), "the branch");
    assert!(next.interrupted, "the interrupted turn");
    assert!(next.had_a_turn, "that it is a conversation at all");
    assert_eq!(
        next.arrival_notice.as_deref(),
        Some("moved while you were away")
    );
    assert_eq!(next.name.as_deref(), Some("the one you named"));
    assert_eq!(next.spawned_by, Some(parent), "who spawned it");
    assert!(next.spawn_cut_worktree, "whether that spawn cut the tree");
    assert_eq!(next.forked_from, Some(parent), "that it was forked");
    assert_eq!(next.created_at, began, "when the conversation began");
}

#[test]
fn a_fork_starts_its_own_conversation() {
    let parent = 42u128;
    let began: Moment = 1_000_000_000_000_000;
    let mut prev = session(1);
    prev.interrupted = true;
    prev.name = Some("the one you named".into());
    prev.forked_from = Some(parent);
    prev.created_at = began;
    prev.had_a_turn = true;

    let mut next = session(2);
    Carried::from(Some(&prev), true).apply(&mut next);

    assert!(!next.interrupted, "a fork opens at a fresh prompt");
    assert!(next.name.is_none(), "a fork earns its own name");
    assert!(
        next.forked_from.is_none(),
        "the spawn sets this from the source"
    );
    assert_ne!(next.created_at, began, "a fork started when it was forked");
    // And the one that does: a fork replays the parent's turns.
    assert!(next.had_a_turn);
}

#[test]
fn rejects_worktree_names_that_would_escape_the_worktrees_dir() {
    assert!(validate_worktree_name("invoice-export").is_ok());
    assert!(validate_worktree_name("../../etc").is_err());
    assert!(validate_worktree_name("a/b").is_err());
    assert!(validate_worktree_name(".hidden").is_err());
    assert!(validate_worktree_name("").is_err());
}

#[test]
fn reads_the_worktree_name_out_of_a_path() {
    let dir = "/repo/.agent/worktrees";
    let p = "/repo/.agent/worktrees/invoice/src/Foo.php";
    assert_eq!(worktree_name_of(p, dir), Some("invoice".to_string()));
    assert_eq!(worktree_name_of("/repo/src", dir), None);
}
