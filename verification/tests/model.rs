use orchd::model::{
    AutomationStore, Cache, Moment, Pass, PrAutomation, Session, State, StoryRef, TurnReason,
};

const NOW: Moment = 1_000_000_000;
const LATER: Moment = 2_000_000_000;

fn your_turn(reason: TurnReason) -> State {
    State::YourTurn { since: NOW, reason }
}

fn session(cwd: &str) -> Session {
    Session::new(
        0x67e55044_10b1_426f_9247_bb680e5fe0c8,
        "wt".to_string(),
        cwd.to_string(),
        None,
        NOW,
        "token".to_string(),
    )
}

/// The rail called four resumed sessions "paused mid-work" when one of them had
/// finished before the restart.
#[test]
fn only_a_turn_that_was_cut_off_survives_as_interrupted() {
    let mut s = session("/tmp");
    assert!(!s.interrupted, "a session that has done nothing owes no turn");

    s.set_state(State::Working, NOW);
    assert!(s.interrupted);

    // Killed mid-turn: `Exited` must not clear it, or the record loses the one fact
    // the restart needs.
    s.set_state(State::Exited, NOW);
    assert!(s.interrupted);

    // A resumed one stays interrupted at its prompt.
    s.set_state(your_turn(TurnReason::Ready), NOW);
    assert!(s.interrupted);

    // A turn that ends is not an interrupted one.
    s.set_state(your_turn(TurnReason::TurnComplete), NOW);
    assert!(!s.interrupted);
}

#[test]
fn a_second_notice_does_not_restart_the_wait_clock() {
    let mut s = session("/tmp");
    s.set_state(State::Working, NOW);
    s.wait_for(TurnReason::AskedAQuestion, NOW + 5);
    let State::YourTurn { since: first, .. } = s.state else {
        panic!("the first notice did not start a wait: {:?}", s.state);
    };
    let began = s.state_since;

    s.wait_for(TurnReason::TurnComplete, LATER);
    let State::YourTurn { since, reason } = s.state else {
        panic!("the second notice ended the wait: {:?}", s.state);
    };
    assert_eq!(since, first, "the clock restarted");
    assert_eq!(s.state_since, began, "so did the one the rail sorts on");
    assert_eq!(
        reason,
        TurnReason::AskedAQuestion,
        "the first notice is what the session is waiting for"
    );

    // And a turn that really starts again waits afresh.
    s.set_state(State::Working, LATER);
    s.wait_for(TurnReason::TurnComplete, LATER);
    let State::YourTurn { reason, .. } = s.state else {
        panic!("a finished turn did not wait: {:?}", s.state);
    };
    assert_eq!(
        reason,
        TurnReason::TurnComplete,
        "a new turn's notice was skipped as though the old wait were still on"
    );
}

#[test]
fn a_freshly_opened_session_is_not_busy() {
    assert!(!your_turn(TurnReason::Ready).is_busy());
}

#[test]
fn only_a_running_agent_counts_as_busy() {
    assert!(State::Working.is_busy());
    assert!(State::Starting.is_busy());
    assert!(!your_turn(TurnReason::TurnComplete).is_busy());
    // Stopped on a red build is idle too: it reached Stop and wants you.
    assert!(!State::BuildFailing {
        summary: "x".into()
    }
    .is_busy());
    assert!(!State::Exited.is_busy());
}

#[test]
fn ready_is_idle_without_demanding_attention() {
    assert!(!your_turn(TurnReason::Ready).wants_attention());
    assert!(your_turn(TurnReason::TurnComplete).wants_attention());
    assert!(your_turn(TurnReason::AskedAQuestion).wants_attention());
    assert!(State::BuildFailing {
        summary: "x".into()
    }
    .wants_attention());
    assert!(!State::Working.wants_attention());
}

/// An interrupted turn is a turn still owed, so the flag the resume nudge reads has to
/// survive it.
#[test]
fn an_interrupted_turn_is_still_owed() {
    let mut s = session("/tmp");
    s.set_state(State::Working, NOW);
    assert!(s.interrupted);

    s.set_state(your_turn(TurnReason::Interrupted), NOW);
    assert!(s.interrupted, "you cut it off; it still owes you the rest");
    assert!(!s.state.is_busy());
    assert!(s.state.wants_attention(), "stopped, and it is your move");

    // A turn that really finished clears it.
    s.set_state(State::Working, NOW);
    s.set_state(your_turn(TurnReason::TurnComplete), NOW);
    assert!(!s.interrupted);
}

/// A yes about one folder is a yes about that folder, and the sibling next to it is a
/// different question.
#[test]
fn a_grant_covers_one_folder_and_what_is_under_it() {
    let mut s = session("/repo/.worktrees/invoice");
    assert!(!s.outside_granted("/repo"), "nothing is granted yet");

    s.outside_grants.push("/repo".to_string());
    assert!(s.outside_granted("/repo"));
    // Under it, which is where an agent refused at a checkout aims next.
    assert!(s.outside_granted("/repo/apps/web"));
    // A sibling is not under it, and neither is a name that merely starts the same way.
    assert!(!s.outside_granted("/other"));
    assert!(!s.outside_granted("/repo-two"));
}

#[test]
fn a_finished_turn_outranks_one_you_never_typed_into() {
    assert!(your_turn(TurnReason::TurnComplete).rank() < your_turn(TurnReason::Ready).rank());
    assert!(
        State::BuildFailing {
            summary: "x".into()
        }
        .rank()
            < your_turn(TurnReason::TurnComplete).rank()
    );
}

// ---------------------------------------------------------------------------
// A filed story, and what has been filed
// ---------------------------------------------------------------------------

fn pair(id: &str, url: &str) -> StoryRef {
    StoryRef::stored(id.to_string(), url.to_string())
}

fn story() -> StoryRef {
    pair("sc-12345", "https://app.shortcut.com/acme/story/12345")
}

#[test]
fn the_substitution_is_clickable_and_short() {
    assert_eq!(
        story().link(),
        "[sc-12345](https://app.shortcut.com/acme/story/12345)"
    );
}

const HOST: &str = "app.shortcut.com";

#[test]
fn an_id_that_does_not_match_its_url_is_refused() {
    assert!(story().consistent(HOST));

    let swapped = pair("sc-12345", "https://app.shortcut.com/acme/story/99999");
    assert!(!swapped.consistent(HOST));

    // A title slug on the end is still the same story.
    let slugged = pair(
        "sc-12345",
        "https://app.shortcut.com/acme/story/12345/document-the-schedules",
    );
    assert!(slugged.consistent(HOST));

    // ...and a slug carrying digits of its own must not stand in for the id.
    let decoy = pair(
        "sc-777",
        "https://app.shortcut.com/acme/story/12345/fix-777-errors",
    );
    assert!(
        !decoy.consistent(HOST),
        "matched a slug instead of the id segment"
    );

    let empty = pair("sc-", "https://app.shortcut.com/acme/story/12345");
    assert!(!empty.consistent(HOST));
}

#[test]
fn a_key_in_the_path_agrees_with_its_id_too() {
    let linear = StoryRef::new(
        "ENG-123",
        "https://linear.app/acme/issue/ENG-123/stop-the-flaky-poller",
        "linear.app",
    );
    assert!(linear.is_some(), "a Linear issue URL was refused");

    let jira = StoryRef::new(
        "ABC-123",
        "https://acme.atlassian.net/browse/ABC-123",
        "acme.atlassian.net",
    );
    assert!(jira.is_some(), "a Jira browse URL was refused");

    // The pair still has to agree.
    assert!(
        StoryRef::new(
            "ENG-123",
            "https://linear.app/acme/issue/ENG-999/other",
            "linear.app",
        )
        .is_none(),
        "a mismatched key passed"
    );
    // And the host rule is untouched by any of it.
    assert!(
        StoryRef::new(
            "ENG-123",
            "https://evil.example/acme/issue/ENG-123",
            "linear.app",
        )
        .is_none(),
        "a foreign host passed"
    );
}

/// Every id below carries the right number and a legitimate URL, and every one must
/// still be refused.
#[test]
fn an_id_that_is_not_a_prefix_and_a_number_is_refused() {
    let with = |id: &str| pair(id, "https://app.shortcut.com/acme/story/12345").consistent(HOST);
    assert!(with("sc-12345"), "the ordinary shape");
    assert!(with("SC12345"), "no dash is fine");
    assert!(
        !with("x](https://evil.example) [sc-12345"),
        "a link injected through the id"
    );
    assert!(!with("sc-12345\nsee also"), "a newline");
    assert!(!with("sc-12345 sc-12345"), "two ids");
    assert!(!with("12345"), "no prefix");
    assert!(!with("sc-"), "no number");
    assert!(
        !with("storyprefix-12345"),
        "a prefix too long to be a tracker's"
    );
    assert!(
        !with("sc-1234567890123"),
        "a number too long to be a story's"
    );
    assert!(!with(""), "empty");
}

#[test]
fn a_url_off_the_trackers_host_is_refused() {
    let with = |url: &str| pair("sc-12345", url).consistent(HOST);

    assert!(
        !with("http://attacker.example/12345"),
        "another host entirely"
    );
    assert!(
        !with("https://attacker.example/story/12345"),
        "https, still not ours"
    );
    // The shapes a substring check on the host would have let through.
    assert!(
        !with("https://app.shortcut.com.evil.example/story/12345"),
        "suffixed host"
    );
    assert!(
        !with("https://evil.example/app.shortcut.com/story/12345"),
        "host in the path"
    );
    assert!(
        !with("https://app.shortcut.com@evil.example/story/12345"),
        "userinfo pointing elsewhere"
    );
    // Scheme matters.
    assert!(
        !with("http://app.shortcut.com/acme/story/12345"),
        "plain http"
    );
    assert!(!with("//app.shortcut.com/acme/story/12345"), "no scheme");
    // A number in the query or the fragment is not a path segment.
    assert!(
        !with("https://app.shortcut.com/acme/story/999?id=12345"),
        "query"
    );
    assert!(
        !with("https://app.shortcut.com/acme/story/999#12345"),
        "fragment"
    );
    // And the host on its own, with no path, names no story.
    assert!(!with("https://app.shortcut.com"), "no path at all");

    // The real thing still passes, including a differently-cased host.
    assert!(with("https://app.shortcut.com/acme/story/12345"));
    assert!(
        with("https://APP.Shortcut.COM/acme/story/12345"),
        "hosts are case-insensitive"
    );
}

#[test]
fn the_cache_is_keyed_by_pr_and_thread() {
    let mut c = Cache::default();
    assert!(c.is_empty());
    c.put(10001, "PRRT_1", story());
    assert_eq!(c.get(10001, "PRRT_1", Some(HOST)), Some(&story()));
    // Same thread id under a different PR is a different story.
    assert_eq!(c.get(10004, "PRRT_1", Some(HOST)), None);
    assert_eq!(c.get(10001, "PRRT_2", Some(HOST)), None);
    assert_eq!(c.len(), 1);
}

/// The file outlives the rule: an entry written before the id was checked is refused on
/// the way out.
#[test]
fn a_poisoned_cache_entry_is_refused_on_the_way_out() {
    let mut c = Cache::default();
    let poisoned = pair(
        "x](https://evil.example) [sc-12345",
        "https://app.shortcut.com/acme/story/12345",
    );
    c.put(10001, "PRRT_1", poisoned);
    assert_eq!(
        c.get(10001, "PRRT_1", Some(HOST)),
        None,
        "the host is known"
    );
    assert_eq!(
        c.get(10001, "PRRT_1", None),
        None,
        "and the id alone is enough to refuse it, with no tracker configured"
    );

    // A sound entry still comes back either way.
    c.put(10002, "PRRT_1", story());
    assert_eq!(c.get(10002, "PRRT_1", Some(HOST)), Some(&story()));
    assert_eq!(c.get(10002, "PRRT_1", None), Some(&story()));
}

#[test]
fn the_cache_survives_a_round_trip() {
    let mut c = Cache::default();
    c.put(10001, "PRRT_1", story());
    let rows: Vec<(u64, String, String, String)> = c
        .entries()
        .into_iter()
        .map(|(pr, thread, s)| (pr, thread, s.id().to_string(), s.url().to_string()))
        .collect();
    let written = serde_json::to_string(&rows).unwrap();
    let read: Vec<(u64, String, String, String)> = serde_json::from_str(&written).unwrap();
    let back = Cache::of_entries(
        read.into_iter()
            .map(|(pr, thread, id, url)| (pr, thread, StoryRef::stored(id, url)))
            .collect(),
    );
    assert_eq!(back.get(10001, "PRRT_1", Some(HOST)), Some(&story()));
}

#[test]
fn a_second_put_replaces_the_first_and_nothing_else() {
    let mut c = Cache::new();
    c.put(1, "a", pair("sc-1", "https://h/story/1"));
    c.put(1, "b", pair("sc-2", "https://h/story/2"));
    c.put(1, "a", pair("sc-3", "https://h/story/3"));
    assert_eq!(c.len(), 2);
    assert!(!c.is_empty());
    assert_eq!(c.get(1, "a", Some("h")).unwrap().id(), "sc-3");
    assert_eq!(c.get(1, "b", Some("h")).unwrap().url(), "https://h/story/2");
    assert_eq!(c.get(1, "b", Some("other")), None, "the host is re-checked");
}

// ---------------------------------------------------------------------------
// A PR the daemon is fixing
// ---------------------------------------------------------------------------

#[test]
fn exhaustion_clears_only_when_the_head_moves() {
    let mut store = AutomationStore::default();
    store.by_pr.insert(
        7,
        PrAutomation::Exhausted {
            at_head: Some("abc".into()),
            at: NOW,
        },
    );
    store.reconcile_head(7, Some("abc"));
    assert!(store.get(7).is_some(), "same head must stay exhausted");
    store.reconcile_head(7, Some("def"));
    assert!(store.get(7).is_none(), "a moved head means you touched it");
}

#[test]
fn an_unknown_head_does_not_clear_exhaustion() {
    let mut store = AutomationStore::default();
    store.by_pr.insert(
        7,
        PrAutomation::Exhausted {
            at_head: Some("abc".into()),
            at: NOW,
        },
    );
    store.reconcile_head(7, None);
    assert!(store.get(7).is_some());
}

#[test]
fn a_run_that_left_an_unknown_head_adopts_the_next_poll_rather_than_clearing() {
    let mut store = AutomationStore::default();
    store.by_pr.insert(
        7,
        PrAutomation::Exhausted {
            at_head: None,
            at: NOW,
        },
    );
    assert!(
        store.reconcile_head(7, Some("post-push")),
        "the baseline is news"
    );
    assert!(store.get(7).is_some(), "adopting must not clear the record");
    assert!(!store.reconcile_head(7, Some("post-push")));
    assert!(store.get(7).is_some());
    assert!(
        store.reconcile_head(7, Some("yours")),
        "now it really moved"
    );
    assert!(store.get(7).is_none());
}

#[test]
fn a_running_pass_is_left_alone_by_a_poll() {
    let mut store = AutomationStore::default();
    store.by_pr.insert(
        7,
        PrAutomation::Running {
            session: 5,
            started: NOW,
        },
    );
    assert!(!store.reconcile_head(7, Some("abc")));
    assert!(matches!(store.get(7), Some(PrAutomation::Running { .. })));
    assert!(!store.reconcile_head(8, Some("abc")));
}

/// Which runs the resume path has to re-credential.
#[test]
fn the_posting_run_is_recognised_and_no_others() {
    assert!(Pass::posts_proposals(Pass::REVIEW));
    assert!(!Pass::posts_proposals(Pass::FIX_PR));
    assert!(!Pass::posts_proposals("resolve"));
}
