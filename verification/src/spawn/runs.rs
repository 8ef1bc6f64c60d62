//! Runs over a PR: ordinary sessions, started with one line to type.

use vstd::prelude::*;
use vstd::string::*;
use crate::api::{refuse, ApiError, Said};
use crate::ids::{hyphenated, session_text};
use crate::model::{is_fresh, Moment, Pass, Session, SessionId};
use crate::spawn::record::{is_new, Launch};
use crate::spawn::{rebase_base, rebase_target};
use crate::text::{cat2, cat4, copies, decimal, number, opt_str, texts};

verus! {

/// The texts of a list of variables.
pub open spec fn pairs(v: Seq<(String, String)>) -> Seq<(Seq<char>, Seq<char>)> {
    v.map_values(|p: (String, String)| (p.0@, p.1@))
}

fn push_pair(list: &mut Vec<(String, String)>, name: &str, value: &str)
    ensures
        pairs(final(list)@) == pairs(old(list)@).push((name@, value@)),
{
    let ghost before = list@;
    list.push((name.to_owned(), value.to_owned()));
    proof {
        assert(pairs(list@) =~= pairs(before).push((name@, value@)));
    }
}

/// The environment of a child: the variables it is handed, and the names of those that
/// are taken out of what it would inherit.
pub type Environment = (Vec<(String, String)>, Vec<String>);

/// One run over a PR, in the shape every such spawn shares.
pub struct RunSpec {
    /// The command the session carries.
    pub command: String,
    /// What is typed once the agent has started.
    pub pending: String,
    /// Whether the run takes decisions over the ask channel.
    pub asks: bool,
    /// Variables the run needs beyond the checkout's own and the daemon's.
    pub extra_env: Vec<(String, String)>,
}

impl RunSpec {
    /// The session record for this run, as it goes into the map: the prompt is on it
    /// before the spawn.
    pub fn session(
        &self,
        id: SessionId,
        workspace: &str,
        path: String,
        pr: u64,
        now: Moment,
        ask_token: String,
    ) -> (r: Session)
        ensures
            r.id == id,
            r.workspace@ == workspace@,
            r.cwd == path,
            r.ask_token == ask_token,
            r.pass == Some(Pass { pr, command: self.command }),
            r.pending_prompt == Some(self.pending),
            is_fresh((Session { pending_prompt: None, ..r }), now),
    {
        let mut session: Session = Session::new(
            id,
            workspace.to_owned(),
            path,
            Some(Pass { pr, command: self.command.clone() }),
            now,
            ask_token,
        );
        session.pending_prompt = Some(self.pending.clone());
        session
    }

    /// The ask token this run is handed: none where it has nothing to ask.
    pub fn ask_token(&self, session: &Session) -> (r: Option<String>)
        ensures
            r == asked_with(self.asks, session.ask_token),
    {
        if self.asks {
            Some(session.ask_token.clone())
        } else {
            None
        }
    }
}

/// The command a run is started with.
pub fn run_command(agent: &str, id: SessionId, flags: &Vec<String>) -> (r: Vec<String>)
    ensures
        texts(r@) == seq![agent@, "--session-id"@, hyphenated(id)] + texts(flags@),
{
    let mut cmd: Vec<String> = Vec::new();
    cmd.push(agent.to_owned());
    cmd.push("--session-id".to_owned());
    cmd.push(session_text(id));
    let ghost head = cmd@;
    let mut tail: Vec<String> = copies(flags);
    cmd.append(&mut tail);
    proof {
        assert(texts(cmd@) =~= seq![agent@, "--session-id"@, hyphenated(id)] + texts(flags@));
    }
    cmd
}

/// What a run over a PR is started with: its command, its record with the prompt on it,
/// and its environment, with the freshly minted proposals credential where it posts any.
/// `path` is the worktree's, where it still stands.
pub fn spawn_run(
    spec: &RunSpec,
    agent: &str,
    workspace: &str,
    path: Option<&str>,
    pr: u64,
    id: SessionId,
    flags: &Vec<String>,
    session_env: Environment,
    minted: &str,
    now: Moment,
    token: String,
) -> (r: Result<Launch, ApiError>)
    ensures
        match opt_str(path) {
            None => r is Err && r->Err_0@ == Said::Failed("worktree vanished"@),
            Some(at) => {
                &&& r is Ok
                &&& texts(r->Ok_0.command@) == seq![agent@, "--session-id"@, hyphenated(id)]
                    + texts(flags@)
                &&& is_new(
                    (Session { pending_prompt: None, ..r->Ok_0.record }),
                    id,
                    workspace@,
                    at,
                    Some(Pass { pr, command: spec.command }),
                    now,
                    token,
                )
                &&& r->Ok_0.record.pending_prompt == Some(spec.pending)
                &&& pairs(r->Ok_0.env@) == pairs(session_env.0@) + credential(
                    Some(Pass { pr, command: spec.command }),
                    minted@,
                ) + pairs(spec.extra_env@)
                &&& r->Ok_0.unset == session_env.1
            },
        },
{
    match path {
        None => Err(refuse("worktree vanished".to_owned())),
        Some(at) => {
            let command: Vec<String> = run_command(agent, id, flags);
            let record: Session = spec.session(id, workspace, at.to_owned(), pr, now, token);
            let post: Option<&str> = match post_token_for(&record.pass) {
                Some(_) => Some(minted),
                None => None,
            };
            let (env, unset) = run_env(session_env, post, &spec.extra_env);
            Ok(Launch { command, record, env, unset })
        },
    }
}

/// The PR whose proposals credential a session with this pass is handed, if it posts
/// any.
pub open spec fn posts_on(pass: Option<Pass>) -> Option<u64> {
    match pass {
        Some(p) => if p.command@ == Pass::REVIEW@ {
            Some(p.pr)
        } else {
            None
        },
        None => None,
    }
}

/// The proposals credential in the environment of a session with this pass: what was
/// minted for it, and nothing for one with nothing to post.
pub open spec fn credential(pass: Option<Pass>, minted: Seq<char>) -> Seq<
    (Seq<char>, Seq<char>),
> {
    if posts_on(pass) is Some {
        seq![("ORCH_POST_TOKEN"@, minted)]
    } else {
        Seq::empty()
    }
}

pub fn post_token_for(pass: &Option<Pass>) -> (r: Option<u64>)
    ensures
        r == posts_on(*pass),
{
    match pass {
        Some(p) => if Pass::posts_proposals(p.command.as_str()) {
            Some(p.pr)
        } else {
            None
        },
        None => None,
    }
}

/// The environment a run is handed: the session's own, the proposals credential where
/// it has one, and what it needs beyond that. What the session's own takes out is taken
/// out of it too, and nothing else.
pub fn run_env(
    session_env: Environment,
    post: Option<&str>,
    extra: &Vec<(String, String)>,
) -> (r: Environment)
    ensures
        pairs(r.0@) == pairs(session_env.0@) + (match post {
            Some(t) => seq![("ORCH_POST_TOKEN"@, t@)],
            None => Seq::empty(),
        }) + pairs(extra@),
        r.1 == session_env.1,
{
    let (set, unset) = session_env;
    let mut env: Vec<(String, String)> = set;
    let ghost first = pairs(env@);
    match post {
        Some(token) => {
            push_pair(&mut env, "ORCH_POST_TOKEN", token);
            proof {
                assert(pairs(env@) =~= first + seq![("ORCH_POST_TOKEN"@, token@)]);
            }
        },
        None => {
            proof {
                assert(pairs(env@) =~= first + Seq::empty());
            }
        },
    }
    let ghost mid = pairs(env@);
    let mut i: usize = 0;
    proof {
        assert(mid =~= mid + pairs(extra@).take(0));
    }
    while i < extra.len()
        invariant
            i <= extra@.len(),
            pairs(env@) == mid + pairs(extra@).take(i as int),
        decreases extra@.len() - i,
    {
        push_pair(&mut env, extra[i].0.as_str(), extra[i].1.as_str());
        proof {
            let p = pairs(extra@);
            assert(mid + p.take(i + 1) =~= (mid + p.take(i as int)).push(p[i as int]));
        }
        i += 1;
    }
    proof {
        assert(pairs(extra@).take(i as int) =~= pairs(extra@));
    }
    (env, unset)
}

// ---------------------------------------------------------------------------
// The run that fixes a PR
// ---------------------------------------------------------------------------

/// Why a fix run does not start, if a worktree on the branch has a live session.
pub fn refuse_if_branch_is_busy(busy: Option<&str>, pr: u64) -> (r: Result<(), ApiError>)
    ensures
        match busy {
            None => r is Ok,
            Some(ws) => r is Err && r->Err_0@ == Said::Failed(
                ws@ + " already has a live session for #"@ + decimal(pr as nat)
                    + "; finish or close it first"@,
            ),
        },
{
    match busy {
        None => Ok(()),
        Some(ws) => {
            let n: String = number(pr);
            Err(
                refuse(
                    cat4(
                        ws,
                        " already has a live session for #",
                        n.as_str(),
                        "; finish or close it first",
                    ),
                ),
            )
        },
    }
}

/// The names a run's instructions read their values under.
pub struct VarNames {
    pub pr: String,
    pub upstream: String,
    pub upstream_remote: String,
    pub login: String,
}

/// The first of the ports a run may use: each PR gets twenty of its own.
pub open spec fn port_base(pr: u64) -> nat {
    (20000 + (pr % 1000) * 20) as nat
}

/// The variables a fix run is handed.
pub open spec fn fix_env(
    vars: VarNames,
    pr: u64,
    upstream_ref: Seq<char>,
    upstream_remote: Seq<char>,
    base_ref: Option<Seq<char>>,
    login: Option<Seq<char>>,
) -> Seq<(Seq<char>, Seq<char>)> {
    seq![
        ("COMPOSE_PROJECT_NAME"@, "orchd-pr-"@ + decimal(pr as nat)),
        ("ORCHD_PORT_BASE"@, decimal(port_base(pr))),
        (vars.pr@, decimal(pr as nat)),
        (vars.upstream@, rebase_base(upstream_ref, upstream_remote, base_ref)),
        (vars.upstream_remote@, upstream_remote),
    ] + match login {
        Some(l) => seq![(vars.login@, l)],
        None => Seq::empty(),
    }
}

/// The run that fixes a PR: pinned to the PR's own base, with ports and a compose
/// project of its own, and with nobody to ask. The login is left out where it is not
/// known yet.
pub fn spawn_fix_pr_session(
    vars: &VarNames,
    pr: u64,
    upstream_ref: &str,
    upstream_remote: &str,
    base_ref: Option<&str>,
    login: Option<&str>,
) -> (r: RunSpec)
    ensures
        r.command@ == Pass::FIX_PR@,
        r.pending@ == "/orchd:"@ + Pass::FIX_PR@ + " "@ + decimal(pr as nat),
        !r.asks,
        pairs(r.extra_env@) == fix_env(
            *vars,
            pr,
            upstream_ref@,
            upstream_remote@,
            opt_str(base_ref),
            opt_str(login),
        ),
{
    let n: String = number(pr);
    let project: String = cat2("orchd-pr-", n.as_str());
    let port: String = number(20000 + (pr % 1000) * 20);
    let target: String = rebase_target(upstream_ref, upstream_remote, base_ref);
    let mut env: Vec<(String, String)> = Vec::new();
    push_pair(&mut env, "COMPOSE_PROJECT_NAME", project.as_str());
    push_pair(&mut env, "ORCHD_PORT_BASE", port.as_str());
    push_pair(&mut env, vars.pr.as_str(), n.as_str());
    push_pair(&mut env, vars.upstream.as_str(), target.as_str());
    push_pair(&mut env, vars.upstream_remote.as_str(), upstream_remote);
    let ghost five = pairs(env@);
    match login {
        Some(l) => {
            push_pair(&mut env, vars.login.as_str(), l);
        },
        None => {},
    }
    proof {
        assert(pairs(env@) =~= fix_env(
            *vars,
            pr,
            upstream_ref@,
            upstream_remote@,
            opt_str(base_ref),
            opt_str(login),
        ));
    }
    RunSpec {
        command: Pass::FIX_PR.to_owned(),
        pending: cat4("/orchd:", Pass::FIX_PR, " ", n.as_str()),
        asks: false,
        extra_env: env,
    }
}

/// Two runs over PRs whose last three digits differ share none of their twenty ports,
/// and every run's ports are real ones.
pub proof fn parallel_runs_share_no_ports(a: u64, b: u64)
    requires
        a % 1000 != b % 1000,
    ensures
        port_base(a) + 20 <= port_base(b) || port_base(b) + 20 <= port_base(a),
        port_base(a) + 19 < 65536,
{
}

/// Only a review session posts proposals, on its own PR, and its credential is the one minted
/// for it: every other run and every session that is none goes without.
pub proof fn only_a_review_is_handed_the_credential(pass: Option<Pass>, minted: Seq<char>)
    ensures
        posts_on(pass) is Some <==> pass is Some && pass->Some_0.command@ == "review"@,
        posts_on(pass) is Some ==> posts_on(pass)->Some_0 == pass->Some_0.pr,
        credential(pass, minted).len() > 0 <==> posts_on(pass) is Some,
        posts_on(pass) is Some ==> credential(pass, minted) == seq![("ORCH_POST_TOKEN"@, minted)],
{
}

/// A run that fixes a PR is told which PR, what to rebase onto, where that is, and who is
/// looking where that is known; and has a project and ports of its own.
pub proof fn a_fix_run_is_told_what_it_needs(
    vars: VarNames,
    pr: u64,
    upstream_ref: Seq<char>,
    upstream_remote: Seq<char>,
    base_ref: Option<Seq<char>>,
    login: Option<Seq<char>>,
)
    ensures
        ({
            let env = fix_env(vars, pr, upstream_ref, upstream_remote, base_ref, login);
            &&& env.contains((vars.pr@, decimal(pr as nat)))
            &&& env.contains(
                (vars.upstream@, rebase_base(upstream_ref, upstream_remote, base_ref)),
            )
            &&& env.contains((vars.upstream_remote@, upstream_remote))
            &&& login is Some ==> env.contains((vars.login@, login->Some_0))
            &&& login is None ==> env.len() == 5
            &&& env.contains(("COMPOSE_PROJECT_NAME"@, "orchd-pr-"@ + decimal(pr as nat)))
            &&& env.contains(("ORCHD_PORT_BASE"@, decimal(port_base(pr))))
        }),
        20000 <= port_base(pr) < 40000,
        port_base(pr) % 20 == 0,
{
    let env = fix_env(vars, pr, upstream_ref, upstream_remote, base_ref, login);
    assert(env[0].0 == "COMPOSE_PROJECT_NAME"@ && env[1].0 == "ORCHD_PORT_BASE"@);
    assert(env[2] == (vars.pr@, decimal(pr as nat)));
    assert(env[3].0 == vars.upstream@ && env[4].0 == vars.upstream_remote@);
    if let Some(l) = login {
        assert(env[5] == (vars.login@, l));
    }
}

/// The ask token that a run is handed.
pub open spec fn asked_with(asks: bool, token: String) -> Option<String> {
    if asks {
        Some(token)
    } else {
        None
    }
}

/// A run that may ask is handed its own session's token, and one that may not is handed none.
pub proof fn only_a_run_that_asks_is_handed_the_token(asks: bool, token: String)
    ensures
        asked_with(true, token) == Some(token),
        asked_with(false, token) is None,
{
}

} // verus!
