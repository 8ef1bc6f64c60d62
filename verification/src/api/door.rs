//! Who may ask: the host, origin and token checks in front of every route.

use vstd::prelude::*;
use vstd::string::*;
use crate::text::{
    as_deref, cat2, decimal, ends_with, number, opt_str, opt_text, same, same_opt, starts_with,
};

verus! {

/// The two spellings of this daemon's own address.
pub open spec fn is_own_host(host: Seq<char>, port: u16) -> bool {
    host == "127.0.0.1:"@ + decimal(port as nat) || host == "localhost:"@ + decimal(port as nat)
}

pub fn host_allowed(host: &str, port: u16) -> (r: bool)
    ensures
        r == is_own_host(host@, port),
{
    let digits: String = number(port as u64);
    let a: String = cat2("127.0.0.1:", digits.as_str());
    let b: String = cat2("localhost:", digits.as_str());
    same(host, a.as_str()) || same(host, b.as_str())
}

/// Whether an origin is this daemon's own page, or the one page that hosts it.
pub open spec fn is_own_origin(origin: Seq<char>, port: u16, host_origin: Option<Seq<char>>) -> bool {
    origin == "http://127.0.0.1:"@ + decimal(port as nat) || origin == "http://localhost:"@
        + decimal(port as nat) || host_origin == Some(origin)
}

pub fn origin_allowed(origin: &str, port: u16, host_origin: Option<&str>) -> (r: bool)
    ensures
        r == is_own_origin(origin@, port, opt_str(host_origin)),
{
    let digits: String = number(port as u64);
    let a: String = cat2("http://127.0.0.1:", digits.as_str());
    let b: String = cat2("http://localhost:", digits.as_str());
    same(origin, a.as_str()) || same(origin, b.as_str()) || same_opt(host_origin, Some(origin))
}

/// Whether a request gets past the origin check. One that names an origin must name
/// ours; one that names none is a hook, a read, or carries the token.
pub open spec fn origin_passes(
    origin: Option<Seq<char>>,
    port: u16,
    host_origin: Option<Seq<char>>,
    is_hook: bool,
    is_get: bool,
    token_ok: bool,
) -> bool {
    match origin {
        Some(o) => is_own_origin(o, port, host_origin),
        None => is_hook || is_get || token_ok,
    }
}

pub fn origin_ok(
    origin: Option<&str>,
    port: u16,
    host_origin: Option<&str>,
    is_hook: bool,
    is_get: bool,
    token_ok: bool,
) -> (r: bool)
    ensures
        r == origin_passes(
            opt_str(origin),
            port,
            opt_str(host_origin),
            is_hook,
            is_get,
            token_ok,
        ),
{
    match origin {
        Some(o) => origin_allowed(o, port, host_origin),
        None => is_hook || is_get || token_ok,
    }
}

/// The routes a running session calls on its own ask token.
pub open spec fn ask_route(path: Seq<char>) -> bool {
    "/api/session/"@.is_prefix_of(path) && ("/ask"@.is_suffix_of(path) || "/wait"@.is_suffix_of(
        path,
    ) || "/outside"@.is_suffix_of(path) || "/spawn"@.is_suffix_of(path) || "/reply"@.is_suffix_of(
        path,
    ) || "/process"@.is_suffix_of(path) || "/discard"@.is_suffix_of(path)
        || "/teardown"@.is_suffix_of(path) || "/rerequest"@.is_suffix_of(path)
        || "/handoff"@.is_suffix_of(path))
}

pub fn is_ask_route(path: &str) -> (r: bool)
    ensures
        r == ask_route(path@),
{
    starts_with(path, "/api/session/") && (ends_with(path, "/ask") || ends_with(path, "/wait")
        || ends_with(path, "/outside") || ends_with(path, "/spawn") || ends_with(path, "/reply")
        || ends_with(path, "/process") || ends_with(path, "/discard") || ends_with(
        path,
        "/teardown",
    ) || ends_with(path, "/rerequest") || ends_with(path, "/handoff"))
}

/// Where a run posts what it proposed.
pub open spec fn proposals_route(path: Seq<char>) -> bool {
    "/api/pr/"@.is_prefix_of(path) && "/proposals"@.is_suffix_of(path)
}

pub fn is_proposals_route(path: &str) -> (r: bool)
    ensures
        r == proposals_route(path@),
{
    starts_with(path, "/api/pr/") && ends_with(path, "/proposals")
}

/// What a run reads before it can propose anything.
pub open spec fn triage_route(path: Seq<char>) -> bool {
    "/api/pr/"@.is_prefix_of(path) && "/triage-context"@.is_suffix_of(path)
}

pub fn is_triage_route(path: &str) -> (r: bool)
    ensures
        r == triage_route(path@),
{
    starts_with(path, "/api/pr/") && ends_with(path, "/triage-context")
}

/// Every route an agent calls, on a credential that is not the app token.
pub open spec fn agent_route(path: Seq<char>) -> bool {
    ask_route(path) || proposals_route(path) || triage_route(path)
}

pub fn is_agent_route(path: &str) -> (r: bool)
    ensures
        r == agent_route(path@),
{
    is_ask_route(path) || is_proposals_route(path) || is_triage_route(path)
}

/// A read that spends the forge's credential, and so is not free.
pub open spec fn spending_route(path: Seq<char>) -> bool {
    "/api/pr/"@.is_prefix_of(path) && "/review"@.is_suffix_of(path)
}

pub open spec fn hook_route(path: Seq<char>) -> bool {
    "/hooks/"@.is_prefix_of(path)
}

#[derive(Debug, Clone, Copy, PartialEq, Eq, Structural)]
pub enum Method {
    Get,
    Options,
    Other,
}

/// What the check reads of a request. A header that is absent or is not text is
/// `None`.
pub struct Knock {
    pub method: Method,
    pub path: String,
    pub host: Option<String>,
    pub origin: Option<String>,
    pub token: Option<String>,
}

/// What the daemon checks it against.
pub struct Door {
    pub port: u16,
    /// The app token.
    pub token: String,
    /// The page that hosts this daemon, where one does.
    pub host_origin: Option<String>,
}

#[derive(Debug)]
pub enum Verdict {
    /// Answered here with this status and these words.
    Turned { status: u16, words: &'static str },
    /// The answer to a preflight from the host's page, whose origin it names.
    Preflight { origin: String },
    /// Handed on. The answer names the origin where there is one to name.
    Pass { allow_origin: Option<String> },
}

/// Whether a request carries the app token.
pub open spec fn carries_token(door: Door, k: Knock) -> bool {
    opt_text(k.token) == Some(door.token@)
}

/// Whether a request comes from the page that hosts this daemon.
pub open spec fn from_host_page(door: Door, k: Knock) -> bool {
    k.origin is Some && opt_text(door.host_origin) == opt_text(k.origin)
}

/// Whether a request is one that only the app token opens.
pub open spec fn needs_token(k: Knock) -> bool {
    !hook_route(k.path@) && !agent_route(k.path@) && (k.method != Method::Get || spending_route(
        k.path@,
    ))
}

pub open spec fn host_passes(door: Door, k: Knock) -> bool {
    is_own_host(
        match k.host {
            Some(h) => h@,
            None => Seq::empty(),
        },
        door.port,
    )
}

pub open spec fn knock_origin_passes(door: Door, k: Knock) -> bool {
    origin_passes(
        opt_text(k.origin),
        door.port,
        opt_text(door.host_origin),
        hook_route(k.path@) || agent_route(k.path@),
        k.method == Method::Get,
        carries_token(door, k),
    )
}

/// What a request is answered at the door.
pub open spec fn judged(door: Door, k: Knock, v: Verdict) -> bool {
    if !host_passes(door, k) {
        v matches Verdict::Turned { status, words } && status == 403 && words@ == "bad host"@
    } else if k.method == Method::Options {
        if from_host_page(door, k) {
            v matches Verdict::Preflight { origin } && Some(origin@) == opt_text(k.origin)
        } else {
            v matches Verdict::Turned { status, words } && status == 405 && words@
                == "no such method"@
        }
    } else if !knock_origin_passes(door, k) {
        v matches Verdict::Turned { status, words } && status == 403 && words@ == "bad origin"@
    } else if needs_token(k) && !carries_token(door, k) {
        v matches Verdict::Turned { status, words } && status == 401 && words@ == "bad token"@
    } else {
        v matches Verdict::Pass { allow_origin } && opt_text(allow_origin) == if from_host_page(
            door,
            k,
        ) {
            opt_text(k.origin)
        } else {
            None
        }
    }
}

/// Reject anything that is not the page's own origin: the host first, then a
/// preflight, the origin and the token.
pub fn guard(door: &Door, k: &Knock) -> (v: Verdict)
    ensures
        judged(*door, *k, v),
{
    let host: &str = match &k.host {
        Some(h) => h.as_str(),
        None => "",
    };
    proof {
        reveal_strlit("");
        assert(""@ =~= Seq::<char>::empty());
    }
    if !host_allowed(host, door.port) {
        return Verdict::Turned { status: 403, words: "bad host" };
    }
    let origin: Option<&str> = as_deref(&k.origin);
    let host_origin: Option<&str> = as_deref(&door.host_origin);
    let allowed: Option<String> = match origin {
        Some(o) => if same_opt(host_origin, Some(o)) {
            Some(o.to_owned())
        } else {
            None
        },
        None => None,
    };
    if k.method == Method::Options {
        return match allowed {
            Some(origin) => Verdict::Preflight { origin },
            None => Verdict::Turned { status: 405, words: "no such method" },
        };
    }
    let path: &str = k.path.as_str();
    let is_hook: bool = starts_with(path, "/hooks/");
    let token_ok: bool = same_opt(as_deref(&k.token), Some(door.token.as_str()));
    let is_ask: bool = is_agent_route(path);
    let is_get: bool = k.method == Method::Get;
    if !origin_ok(origin, door.port, host_origin, is_hook || is_ask, is_get, token_ok) {
        return Verdict::Turned { status: 403, words: "bad origin" };
    }
    let spends: bool = starts_with(path, "/api/pr/") && ends_with(path, "/review");
    let needs: bool = !is_hook && !is_ask && (!is_get || spends);
    if needs && !token_ok {
        return Verdict::Turned { status: 401, words: "bad token" };
    }
    Verdict::Pass { allow_origin: allowed }
}

/// The headers that a preflight is answered with beside its origin.
pub fn cors_preflight() -> (r: Vec<(&'static str, &'static str)>)
    ensures
        r@ == seq![
            ("access-control-allow-methods", "GET, POST, OPTIONS"),
            ("access-control-allow-headers", "content-type, x-orch-token"),
            ("access-control-max-age", "600"),
        ],
{
    let mut out: Vec<(&'static str, &'static str)> = Vec::new();
    out.push(("access-control-allow-methods", "GET, POST, OPTIONS"));
    out.push(("access-control-allow-headers", "content-type, x-orch-token"));
    out.push(("access-control-max-age", "600"));
    out
}

// ---------------------------------------------------------------------------
// What the check keeps
// ---------------------------------------------------------------------------

/// Nothing is handed on, and no preflight granted, for another host's name or for a
/// page that is neither the daemon's own nor the one that hosts it.
pub proof fn no_foreign_page_gets_in(door: Door, k: Knock, v: Verdict)
    requires
        judged(door, k, v),
        !(v is Turned),
    ensures
        host_passes(door, k),
        opt_text(k.origin) matches Some(o) ==> is_own_origin(
            o,
            door.port,
            opt_text(door.host_origin),
        ),
{
}

/// Outside the hooks and the agents' own routes, nothing that changes anything is
/// handed on without the app token.
pub proof fn a_change_takes_the_token(door: Door, k: Knock, v: Verdict)
    requires
        judged(door, k, v),
        v is Pass,
        k.method != Method::Get,
        !hook_route(k.path@),
        !agent_route(k.path@),
    ensures
        carries_token(door, k),
{
}

/// No read that spends the forge's credential is handed on without the app token.
pub proof fn a_spending_read_takes_the_token(door: Door, k: Knock, v: Verdict)
    requires
        judged(door, k, v),
        v is Pass,
        spending_route(k.path@),
    ensures
        carries_token(door, k),
{
    lemma_spending_is_no_agent_route(k.path@);
}

proof fn lemma_spending_is_no_agent_route(path: Seq<char>)
    requires
        spending_route(path),
    ensures
        !agent_route(path),
        !hook_route(path),
{
    reveal_strlit("/api/pr/");
    reveal_strlit("/api/session/");
    reveal_strlit("/hooks/");
    reveal_strlit("/review");
    reveal_strlit("/proposals");
    reveal_strlit("/triage-context");
    let n = path.len() as int;
    assert(path.subrange(0, 8)[5] == path[5]);
    assert(path.subrange(0, 8)[1] == path[1]);
    assert(path.subrange(n - 7, n)[6] == path[n - 1]);
    if ask_route(path) {
        assert(path.subrange(0, 13)[5] == path[5]);
    }
    if hook_route(path) {
        assert(path.subrange(0, 7)[1] == path[1]);
    }
    if proposals_route(path) {
        assert(path.subrange(n - 10, n)[9] == path[n - 1]);
    }
    if triage_route(path) {
        assert(path.subrange(n - 15, n)[14] == path[n - 1]);
    }
}

/// An agent or a hook reaches its own routes with neither an origin nor the app
/// token, and no page of somebody else's does.
pub proof fn an_agents_route_needs_neither(door: Door, k: Knock, v: Verdict)
    requires
        judged(door, k, v),
        agent_route(k.path@) || hook_route(k.path@),
        k.method != Method::Options,
        host_passes(door, k),
    ensures
        k.origin is None ==> v is Pass,
        (v is Pass) == (opt_text(k.origin) matches Some(o) ==> is_own_origin(
            o,
            door.port,
            opt_text(door.host_origin),
        )),
{
}

/// An answer names an origin only where the hosting page asked, and then names that
/// page.
pub proof fn only_the_host_page_is_named(door: Door, k: Knock, v: Verdict)
    requires
        judged(door, k, v),
    ensures
        v matches Verdict::Preflight { origin } ==> Some(origin@) == opt_text(door.host_origin),
        v matches Verdict::Pass { allow_origin: Some(o) } ==> Some(o@) == opt_text(
            door.host_origin,
        ),
{
}

/// The daemon's own page gets everything, from either spelling of its address: what it reads,
/// and with the app token what it changes. So does the page that hosts the daemon, which is
/// named in the answer.
pub proof fn the_daemons_own_page_gets_in(door: Door, k: Knock, v: Verdict)
    requires
        judged(door, k, v),
        k.host is Some,
        k.host->Some_0@ == "127.0.0.1:"@ + decimal(door.port as nat) || k.host->Some_0@
            == "localhost:"@ + decimal(door.port as nat),
        !(k.method is Options),
        k.origin is Some ==> k.origin->Some_0@ == "http://127.0.0.1:"@ + decimal(door.port as nat)
            || k.origin->Some_0@ == "http://localhost:"@ + decimal(door.port as nat) || (
        door.host_origin is Some && door.host_origin->Some_0@ == k.origin->Some_0@),
    ensures
        k.token is Some && k.token->Some_0@ == door.token@ ==> v is Pass,
        k.method is Get && !spending_route(k.path@) ==> v is Pass,
        v is Pass && k.origin is Some && door.host_origin is Some && door.host_origin->Some_0@
            == k.origin->Some_0@ ==> (v->allow_origin matches Some(o) && o@ == k.origin->Some_0@),
{
}

/// The page that hosts the daemon may ask beforehand, and nobody else may.
pub proof fn the_host_page_may_ask_beforehand(door: Door, k: Knock, v: Verdict)
    requires
        judged(door, k, v),
        host_passes(door, k),
        k.method is Options,
    ensures
        v is Preflight <==> k.origin is Some && door.host_origin is Some && door.host_origin->Some_0@
            == k.origin->Some_0@,
{
}

/// Whoever is turned away is told which of the checks turned them away.
pub proof fn a_refusal_names_the_check(door: Door, k: Knock, v: Verdict)
    requires
        judged(door, k, v),
        v is Turned,
    ensures
        v->status == 401 ==> !carries_token(door, k) && needs_token(k),
        v->status == 405 ==> k.method is Options,
        v->status == 401 || v->status == 403 || v->status == 405,
        host_passes(door, k) && !(k.method is Options) && knock_origin_passes(door, k) ==> v->status
            == 401,
{
}

/// Every verb an agent calls on its session, and every route of a run on its PR, is an
/// agent's, whatever the session or the PR; so none of them needs the app token.
pub proof fn an_agents_verbs_are_its_own(which: Seq<char>, verb: Seq<char>)
    ensures
        verb == "/ask"@ || verb == "/wait"@ || verb == "/outside"@ || verb == "/spawn"@ || verb
            == "/reply"@ || verb == "/process"@ || verb == "/discard"@ || verb == "/teardown"@
            || verb == "/rerequest"@ || verb == "/handoff"@ ==> agent_route(
            "/api/session/"@ + which + verb,
        ),
        agent_route("/api/pr/"@ + which + "/proposals"@),
        agent_route("/api/pr/"@ + which + "/triage-context"@),
        spending_route("/api/pr/"@ + which + "/review"@),
        hook_route("/hooks/"@ + which),
{
    let a = "/api/session/"@ + which + verb;
    assert(a.subrange(0, "/api/session/"@.len() as int) =~= "/api/session/"@);
    assert(a.subrange(a.len() - verb.len(), a.len() as int) =~= verb);
    let b = "/api/pr/"@ + which + "/proposals"@;
    assert(b.subrange(0, "/api/pr/"@.len() as int) =~= "/api/pr/"@);
    assert(b.subrange(b.len() - "/proposals"@.len(), b.len() as int) =~= "/proposals"@);
    let c = "/api/pr/"@ + which + "/triage-context"@;
    assert(c.subrange(0, "/api/pr/"@.len() as int) =~= "/api/pr/"@);
    assert(c.subrange(c.len() - "/triage-context"@.len(), c.len() as int) =~= "/triage-context"@);
    let d = "/api/pr/"@ + which + "/review"@;
    assert(d.subrange(0, "/api/pr/"@.len() as int) =~= "/api/pr/"@);
    assert(d.subrange(d.len() - "/review"@.len(), d.len() as int) =~= "/review"@);
    let e = "/hooks/"@ + which;
    assert(e.subrange(0, "/hooks/"@.len() as int) =~= "/hooks/"@);
}

/// Nothing that is neither a session's nor a PR's is an agent's.
pub proof fn an_agents_route_is_a_sessions_or_a_prs(path: Seq<char>)
    requires
        agent_route(path),
    ensures
        "/api/session/"@.is_prefix_of(path) || "/api/pr/"@.is_prefix_of(path),
        !"/kill"@.is_suffix_of(path),
        !"/delete"@.is_suffix_of(path),
{
    reveal_strlit("/kill");
    reveal_strlit("/delete");
    reveal_strlit("/ask");
    reveal_strlit("/wait");
    reveal_strlit("/outside");
    reveal_strlit("/spawn");
    reveal_strlit("/reply");
    reveal_strlit("/process");
    reveal_strlit("/discard");
    reveal_strlit("/teardown");
    reveal_strlit("/rerequest");
    reveal_strlit("/handoff");
    reveal_strlit("/proposals");
    reveal_strlit("/triage-context");
    let n = path.len() as int;
    if "/kill"@.is_suffix_of(path) {
        assert(path.subrange(n - 5, n)[4] == path[n - 1]);
        assert("/kill"@[4] == 'l');
    }
    if "/delete"@.is_suffix_of(path) {
        assert(path.subrange(n - 7, n)[6] == path[n - 1]);
        assert(path.subrange(n - 7, n)[5] == path[n - 2]);
        assert(path.subrange(n - 7, n)[4] == path[n - 3]);
        assert("/delete"@[4] == 'e' && "/delete"@[5] == 't' && "/delete"@[6] == 'e');
    }
    lemma_end(path, "/ask"@);
    lemma_end(path, "/wait"@);
    lemma_end(path, "/outside"@);
    lemma_end(path, "/spawn"@);
    lemma_end(path, "/reply"@);
    lemma_end(path, "/process"@);
    lemma_end(path, "/discard"@);
    lemma_end(path, "/teardown"@);
    lemma_end(path, "/rerequest"@);
    lemma_end(path, "/handoff"@);
    lemma_end(path, "/proposals"@);
    lemma_end(path, "/triage-context"@);
}

proof fn lemma_end(path: Seq<char>, end: Seq<char>)
    requires
        end.len() > 2,
    ensures
        end.is_suffix_of(path) ==> path[path.len() - 1] == end[end.len() - 1] && path[path.len() - 2]
            == end[end.len() - 2],
{
    if end.is_suffix_of(path) {
        let tail = path.subrange(path.len() - end.len(), path.len() as int);
        assert(tail =~= end);
        assert(tail[end.len() - 1] == path[path.len() - 1]);
        assert(tail[end.len() - 2] == path[path.len() - 2]);
    }
}

} // verus!
