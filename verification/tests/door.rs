use orchd::api::door::{cors_preflight, guard, Door, Knock, Method, Verdict};
use orchd::api::{no_such_session, refuse, refuse_busy, refuse_missing};

fn door() -> Door {
    Door {
        port: 7777,
        token: "app".to_string(),
        host_origin: Some("https://host.example".to_string()),
    }
}

fn knock(method: Method, path: &str) -> Knock {
    Knock {
        method,
        path: path.to_string(),
        host: Some("localhost:7777".to_string()),
        origin: None,
        token: None,
    }
}

fn turned(v: Verdict) -> (u16, &'static str) {
    match v {
        Verdict::Turned { status, words } => (status, words),
        other => panic!("{other:?}"),
    }
}

#[test]
fn another_host_is_turned_away_before_anything_else() {
    let mut k = knock(Method::Options, "/api/state");
    k.host = Some("evil.example:7777".to_string());
    k.token = Some("app".to_string());
    assert_eq!(turned(guard(&door(), &k)), (403, "bad host"));
    k.host = None;
    assert_eq!(turned(guard(&door(), &k)), (403, "bad host"));
}

#[test]
fn a_preflight_is_answered_for_the_hosting_page_alone() {
    let mut k = knock(Method::Options, "/api/state");
    assert_eq!(turned(guard(&door(), &k)), (405, "no such method"));
    k.origin = Some("http://localhost:7777".to_string());
    assert_eq!(turned(guard(&door(), &k)), (405, "no such method"));
    k.origin = Some("https://host.example".to_string());
    assert!(matches!(
        guard(&door(), &k),
        Verdict::Preflight { origin } if origin == "https://host.example"
    ));
    assert_eq!(
        cors_preflight(),
        vec![
            ("access-control-allow-methods", "GET, POST, OPTIONS"),
            ("access-control-allow-headers", "content-type, x-orch-token"),
            ("access-control-max-age", "600"),
        ]
    );
}

#[test]
fn a_change_needs_the_token_and_a_read_does_not() {
    let mut k = knock(Method::Other, "/api/session");
    k.origin = Some("http://127.0.0.1:7777".to_string());
    assert_eq!(turned(guard(&door(), &k)), (401, "bad token"));
    k.token = Some("wrong".to_string());
    assert_eq!(turned(guard(&door(), &k)), (401, "bad token"));
    k.token = Some("app".to_string());
    assert!(matches!(
        guard(&door(), &k),
        Verdict::Pass { allow_origin: None }
    ));
    let read = knock(Method::Get, "/api/state");
    assert!(matches!(guard(&door(), &read), Verdict::Pass { .. }));
}

#[test]
fn a_change_with_neither_origin_nor_token_is_not_ours() {
    let k = knock(Method::Other, "/api/session");
    assert_eq!(turned(guard(&door(), &k)), (403, "bad origin"));
}

#[test]
fn a_read_that_spends_the_credential_is_not_free() {
    let mut k = knock(Method::Get, "/api/pr/12/review");
    assert_eq!(turned(guard(&door(), &k)), (401, "bad token"));
    k.token = Some("app".to_string());
    assert!(matches!(guard(&door(), &k), Verdict::Pass { .. }));
}

#[test]
fn an_agent_and_a_hook_come_in_bare() {
    for path in [
        "/hooks/stop",
        "/api/session/1/ask",
        "/api/pr/12/proposals",
        "/api/pr/12/triage-context",
    ] {
        let mut k = knock(Method::Other, path);
        assert!(matches!(guard(&door(), &k), Verdict::Pass { .. }), "{path}");
        k.origin = Some("https://evil.example".to_string());
        assert_eq!(turned(guard(&door(), &k)), (403, "bad origin"), "{path}");
    }
}

#[test]
fn only_the_hosting_page_is_named_in_an_answer() {
    let mut k = knock(Method::Get, "/api/state");
    k.origin = Some("https://host.example".to_string());
    assert!(matches!(
        guard(&door(), &k),
        Verdict::Pass { allow_origin: Some(o) } if o == "https://host.example"
    ));
}

#[test]
fn a_refusal_has_its_own_status() {
    assert_eq!(refuse("no".to_string()).status(), 400);
    assert_eq!(refuse_busy("held".to_string()).status(), 409);
    assert_eq!(refuse_missing("gone".to_string()).status(), 404);
    let missing = no_such_session(0x1234_5678_9abc_def0_1234_5678_9abc_def0);
    assert_eq!(missing.status(), 404);
    assert_eq!(
        missing.message(),
        "no such session 12345678-9abc-def0-1234-56789abcdef0"
    );
}
