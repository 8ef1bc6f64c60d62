use orchd::api::{
    host_allowed, is_agent_route, is_ask_route, is_proposals_route, is_triage_route,
    origin_allowed, origin_ok,
};
use orchd::config::WorkspaceNotes;

#[test]
fn only_the_spas_own_origin_is_accepted() {
    assert!(origin_allowed("http://127.0.0.1:7777", 7777, None));
    assert!(origin_allowed("http://localhost:7777", 7777, None));
    assert!(!origin_allowed("http://evil.example", 7777, None));
    // A page on another port is still another origin.
    assert!(!origin_allowed("http://127.0.0.1:7778", 7777, None));
    // Guards against a DNS-rebinding host that merely contains the address.
    assert!(!origin_allowed(
        "http://127.0.0.1.evil.example:7777",
        7777,
        None
    ));
}

/// `(origin, is_hook, is_get, token_ok)` at port 7777.
fn ok(origin: Option<&str>, is_hook: bool, is_get: bool, token_ok: bool) -> bool {
    origin_ok(origin, 7777, None, is_hook, is_get, token_ok)
}

#[test]
fn a_present_origin_must_be_ours_whatever_else_is_true() {
    assert!(ok(Some("http://127.0.0.1:7777"), false, false, true));
    // A token does not buy a pass for a page on another origin.
    assert!(!ok(Some("http://evil.example"), false, false, true));
    assert!(!ok(Some("http://evil.example"), true, true, true));
}

#[test]
fn a_tokened_post_with_no_origin_is_the_agents_own_shape() {
    assert!(ok(None, false, false, true));
    // Still nothing without the token.
    assert!(!ok(None, false, false, false));
}

#[test]
fn every_route_the_vendored_prompts_call_on_the_ask_token_is_exempt() {
    for p in [
        "/api/session/<id>/ask",
        "/api/session/<id>/ask/<ask>/wait",
        "/api/session/<id>/thread/PRRT_x/reply",
        "/api/session/<id>/spawn",
        "/api/session/<id>/process",
        "/api/session/<id>/spawned/<child>/discard",
        "/api/session/<id>/teardown",
        "/api/session/<id>/rerequest",
        "/api/session/<id>/handoff",
        "/api/session/<id>/outside",
    ] {
        assert!(is_ask_route(p), "{p} must not need the app token");
    }
    // And nothing else on the session: these are the page's, on the app token.
    for p in [
        "/api/session/<id>/kill",
        "/api/session/<id>/answer",
        "/api/session/<id>/fork",
        "/api/session/<id>/delete",
        "/api/state",
        "/api/workspace/main/process/docker/restart",
        "/api/workspace/pr-1/teardown",
    ] {
        assert!(!is_ask_route(p), "{p} is not the agent's to call");
    }
}

#[test]
fn the_proposals_post_is_an_agent_route_and_reachable_without_an_origin() {
    let p = "/api/pr/10001/proposals";
    assert!(is_proposals_route(p));
    assert!(
        is_agent_route(p),
        "{p} is curled by the triage and review skills"
    );
    // Not an ask route: it is keyed on a PR, and has no session to check.
    assert!(!is_ask_route(p));
    // The Origin allowance the agent's curl depends on.
    assert!(
        ok(None, true, false, false),
        "no Origin must pass for an agent route"
    );
    // Neighbours that stay the page's, on the app token.
    for other in [
        "/api/pr/10001/review",
        "/api/pr/10001/fix-pr",
        "/api/pr/10001",
    ] {
        assert!(!is_agent_route(other), "{other} is not the agent's to call");
    }
}

#[test]
fn the_review_skill_can_reach_the_route_it_opens_with() {
    let p = "/api/pr/10001/triage-context";
    assert!(is_triage_route(p));
    assert!(is_agent_route(p), "{p} is curled by skills/review/SKILL.md");
    assert!(!is_ask_route(p));
    // The run that starts a review session is the page's, on the app token.
    assert!(!is_agent_route("/api/pr/10001/review-session"));
}

#[test]
fn a_no_origin_get_or_hook_still_passes_untokened() {
    assert!(ok(None, false, true, false));
    assert!(ok(None, true, false, false));
}

#[test]
fn host_must_be_loopback() {
    assert!(host_allowed("127.0.0.1:7777", 7777));
    assert!(host_allowed("localhost:7777", 7777));
    assert!(!host_allowed("evil.example:7777", 7777));
    assert!(!host_allowed("127.0.0.1", 7777));
}

#[test]
fn a_project_note_reaches_only_the_workspace_kind_it_was_written_for() {
    let notes = WorkspaceNotes {
        main: Some("the stack runs here".into()),
        worktree: None,
    };
    assert_eq!(notes.for_main(true), Some("the stack runs here"));
    assert_eq!(notes.for_main(false), None);
    assert_eq!(WorkspaceNotes::default().for_main(true), None);
}
