//! The review overlay's routes: triage, a resolve run, and the hand-off to `fix-pr`.

use vstd::prelude::*;
use vstd::string::*;
use std::collections::HashMap;
use crate::api::open::{polled, pr_from_poll, unpolled, Pr};
use crate::api::talk::{
    ask_key_refusal, ask_token_ok, proposal_key_refusal, proposal_token_ok, Keys,
};
use crate::api::{refuse, ApiError, Said};
use crate::ids::{hyphenated, session_text};
use crate::model::{Pass, Session, SessionId};
use crate::post::{Posted, Thread, Threads};
use crate::sessions::{lemma_seat_found, locate, same_ids, seat, seated};
use crate::spawn::{rebase_base, rebase_target};
use crate::story::StoryDraft;
use crate::text::{
    byte_len, bytes, cat2, cat3, cat4, cat5, decimal, number, opt_str, opt_text, same,
    texts,
};

verus! {

// ---------------------------------------------------------------------------
// What a run reads before it starts
// ---------------------------------------------------------------------------

/// What a triage run needs to know before it can read anything.
pub struct TriageContext {
    pub pr: u64,
    pub owner: String,
    pub repo: String,
    /// Whose PR it is, where that is known.
    pub login: Option<String>,
    pub language: String,
    /// Whether a story may be offered at all.
    pub tracker: bool,
    /// The host a story's URL has to be on.
    pub tracker_host: Option<String>,
    pub proposals_url: String,
    pub progress_url: String,
    /// The ref the branch is measured against.
    pub upstream: String,
}

/// Where a PR's routes are on this daemon.
pub open spec fn pr_base_url(port: u16, pr: u64) -> Seq<char> {
    "http://127.0.0.1:"@ + decimal(port as nat) + "/api/pr/"@ + decimal(pr as nat)
}

/// Why a triage run is told nothing, if it is not: it is not the run that the PR expects,
/// or no repository is known.
pub open spec fn context_refusal(
    expected: Option<Seq<char>>,
    keys: Keys,
    pr: u64,
    repo: bool,
) -> Option<Said> {
    if proposal_key_refusal(expected, keys, pr) is Some {
        proposal_key_refusal(expected, keys, pr)
    } else if !repo {
        Some(Said::Failed("no GitHub repo configured and none on the remote"@))
    } else {
        None
    }
}

/// What a triage run is told. `expected` is the token that was minted for the PR.
pub fn pr_triage_context(
    expected: Option<&str>,
    keys: &Keys,
    pr: u64,
    repo: Option<(String, String)>,
    login: Option<String>,
    language: String,
    tracker_host: Option<String>,
    port: u16,
    upstream_ref: &str,
    upstream_remote: &str,
    base_ref: Option<&str>,
) -> (r: Result<TriageContext, ApiError>)
    ensures
        match context_refusal(opt_str(expected), *keys, pr, repo is Some) {
            Some(why) => r is Err && r->Err_0@ == why,
            None => {
                &&& r is Ok
                &&& r->Ok_0.pr == pr
                &&& r->Ok_0.owner == repo->Some_0.0
                &&& r->Ok_0.repo == repo->Some_0.1
                &&& r->Ok_0.login == login
                &&& r->Ok_0.language == language
                &&& r->Ok_0.tracker == (tracker_host is Some)
                &&& r->Ok_0.tracker_host == tracker_host
                &&& r->Ok_0.proposals_url@ == pr_base_url(port, pr) + "/proposals"@
                &&& r->Ok_0.progress_url@ == pr_base_url(port, pr) + "/triage/progress"@
                &&& r->Ok_0.upstream@ == rebase_base(
                    upstream_ref@,
                    upstream_remote@,
                    opt_str(base_ref),
                )
            },
        },
{
    match proposal_token_ok(expected, keys, pr) {
        Err(e) => {
            return Err(e);
        },
        Ok(()) => {},
    }
    match repo {
        None => Err(refuse("no GitHub repo configured and none on the remote".to_owned())),
        Some((owner, name)) => {
            let p: String = number(port as u64);
            let n: String = number(pr);
            let base: String = cat4("http://127.0.0.1:", p.as_str(), "/api/pr/", n.as_str());
            Ok(
                TriageContext {
                    pr,
                    owner,
                    repo: name,
                    login,
                    language,
                    tracker: tracker_host.is_some(),
                    tracker_host,
                    proposals_url: cat2(base.as_str(), "/proposals"),
                    progress_url: cat2(base.as_str(), "/triage/progress"),
                    upstream: rebase_target(upstream_ref, upstream_remote, base_ref),
                },
            )
        },
    }
}

// ---------------------------------------------------------------------------
// How far a pass has read
// ---------------------------------------------------------------------------

pub struct TriageProgressBody {
    pub done: u32,
    pub total: u32,
}

/// How far a pass over a PR's threads has read.
#[derive(Debug, Clone, Copy, PartialEq, Eq, Structural)]
pub struct TriageProgress {
    pub done: u32,
    pub total: u32,
    /// Whether its proposals came in.
    pub posted: bool,
    pub session: SessionId,
}

/// Whether a session runs the pass over a PR's threads.
pub open spec fn reads_pr(s: Session, pr: u64) -> bool {
    s.state.live() && (s.pass matches Some(p) && p.pr == pr && p.command@ == Pass::REVIEW@)
}

/// The first session that runs the pass over a PR's threads, if one does.
pub open spec fn reader(list: Seq<Session>, pr: u64) -> Option<SessionId>
    decreases list.len(),
{
    if list.len() == 0 {
        None
    } else if reads_pr(list[0], pr) {
        Some(list[0].id)
    } else {
        reader(list.skip(1), pr)
    }
}

fn find_reader(list: &Vec<Session>, pr: u64) -> (r: Option<SessionId>)
    ensures
        r == reader(list@, pr),
{
    let mut i: usize = 0;
    proof {
        assert(list@.skip(0) =~= list@);
    }
    while i < list.len()
        invariant
            i <= list@.len(),
            reader(list@, pr) == reader(list@.skip(i as int), pr),
        decreases list@.len() - i,
    {
        let s: &Session = &list[i];
        let reads: bool = match &s.pass {
            Some(p) => p.pr == pr && same(p.command.as_str(), Pass::REVIEW),
            None => false,
        };
        if s.state.is_live() && reads {
            return Some(s.id);
        }
        proof {
            assert(list@.skip(i as int).skip(1) =~= list@.skip(i + 1));
        }
        i += 1;
    }
    None
}

/// A pass is found wherever one runs: some session that is not over and runs the review of
/// just this PR, the first of them; and nobody else is taken for one.
pub proof fn a_pass_is_found_wherever_it_runs(list: Seq<Session>, pr: u64, i: int)
    ensures
        0 <= i < list.len() && !(list[i].state is Exited) && !(list[i].state is Archived) && (
        list[i].pass matches Some(p) && p.pr == pr && p.command@ == "review"@) ==> reader(list, pr)
            is Some,
        reader(list, pr) matches Some(id) ==> exists|k: int|
            0 <= k < list.len() && (#[trigger] list[k]).id == id && !(list[k].state is Exited) && !(
            list[k].state is Archived) && (list[k].pass matches Some(p) && p.pr == pr && p.command@
                == "review"@),
    decreases list.len(),
{
    if list.len() > 0 {
        let rest = list.skip(1);
        a_pass_is_found_wherever_it_runs(rest, pr, i - 1);
        if 0 < i < list.len() {
            assert(rest[i - 1] == list[i]);
        }
        if reads_pr(list[0], pr) {
            assert(list[0].id == reader(list, pr)->Some_0);
        } else if let Some(id) = reader(rest, pr) {
            let k = choose|k: int|
                0 <= k < rest.len() && (#[trigger] rest[k]).id == id && !(rest[k].state is Exited)
                    && !(rest[k].state is Archived) && (rest[k].pass matches Some(p) && p.pr == pr
                    && p.command@ == "review"@);
            assert(list[k + 1] == rest[k]);
        }
    }
}

/// How far a pass is, once it reported: what it says, by whoever runs it now, with its
/// proposals in where they were.
pub open spec fn progressed(
    was: Option<TriageProgress>,
    done: u32,
    total: u32,
    session: SessionId,
) -> TriageProgress {
    TriageProgress { done, total, posted: was is Some && was->Some_0.posted, session }
}

/// How far a pass is once its proposals came in.
pub open spec fn handed_in(at: TriageProgress) -> TriageProgress {
    TriageProgress { posted: true, done: at.total, ..at }
}

/// A pass is as far as it last reported, and its proposals stay in once they came in; where
/// they did, it is done with all there was.
pub proof fn proposals_stay_in(
    was: Option<TriageProgress>,
    at: TriageProgress,
    done: u32,
    total: u32,
    session: SessionId,
)
    ensures
        progressed(was, done, total, session).done == done,
        progressed(was, done, total, session).total == total,
        progressed(was, done, total, session).session == session,
        progressed(None, done, total, session).posted == false,
        progressed(Some(at), done, total, session).posted == at.posted,
        progressed(Some(handed_in(at)), done, total, session).posted,
        handed_in(at).posted && handed_in(at).done == at.total && handed_in(at).total == at.total
            && handed_in(at).session == at.session,
{
}

/// Why how far a pass has read is not recorded, if it is not.
pub open spec fn progress_refusal(
    list: Seq<Session>,
    expected: Option<Seq<char>>,
    keys: Keys,
    pr: u64,
) -> Option<Said> {
    if proposal_key_refusal(expected, keys, pr) is Some {
        proposal_key_refusal(expected, keys, pr)
    } else if reader(list, pr) is None {
        Some(Said::Failed("no triage run for PR #"@ + decimal(pr as nat)))
    } else {
        None
    }
}

/// Record how far a pass has read. A post about a PR that nobody reads is refused; one
/// whose proposals already came in stays posted. `expected` is the token that was minted
/// for the PR.
pub fn pr_triage_progress(
    list: &Vec<Session>,
    progress: &mut HashMap<u64, TriageProgress>,
    expected: Option<&str>,
    keys: &Keys,
    pr: u64,
    body: &TriageProgressBody,
) -> (r: Result<(), ApiError>)
    ensures
        match progress_refusal(list@, opt_str(expected), *keys, pr) {
            Some(why) => r is Err && r->Err_0@ == why && final(progress)@ == old(progress)@,
            None => r is Ok && final(progress)@ == old(progress)@.insert(
                pr,
                progressed(
                    if old(progress)@.contains_key(pr) {
                        Some(old(progress)@[pr])
                    } else {
                        None
                    },
                    body.done,
                    body.total,
                    reader(list@, pr)->Some_0,
                ),
            ),
        },
{
    match proposal_token_ok(expected, keys, pr) {
        Err(e) => {
            return Err(e);
        },
        Ok(()) => {},
    }
    let session: SessionId = match find_reader(list, pr) {
        Some(id) => id,
        None => {
            let n: String = number(pr);
            return Err(refuse(cat2("no triage run for PR #", n.as_str())));
        },
    };
    let posted: bool = match progress.get(&pr) {
        Some(at) => at.posted,
        None => false,
    };
    let _ = progress.insert(
        pr,
        TriageProgress { done: body.done, total: body.total, posted, session },
    );
    Ok(())
}

// ---------------------------------------------------------------------------
// Starting a run, and what it hands in
// ---------------------------------------------------------------------------

/// How many threads wait for an answer.
pub open spec fn waiting(items: Seq<Thread>) -> nat
    decreases items.len(),
{
    if items.len() == 0 {
        0
    } else {
        waiting(items.drop_last()) + if items.last().answerable {
            1nat
        } else {
            0nat
        }
    }
}

/// The threads that wait for an answer, in order.
pub open spec fn answerable_ids(items: Seq<Thread>) -> Seq<Seq<char>>
    decreases items.len(),
{
    if items.len() == 0 {
        Seq::empty()
    } else if items.last().answerable {
        answerable_ids(items.drop_last()).push(items.last().id@)
    } else {
        answerable_ids(items.drop_last())
    }
}

/// Every thread that waits for an answer is listed, and no other; and they are counted one
/// by one.
pub proof fn every_waiting_thread_is_listed(items: Seq<Thread>, t: Thread)
    ensures
        waiting(items) == answerable_ids(items).len(),
        waiting(Seq::empty()) == 0,
        waiting(items.push(t)) == waiting(items) + if t.answerable {
            1nat
        } else {
            0
        },
        answerable_ids(items.push(t)) == if t.answerable {
            answerable_ids(items).push(t.id@)
        } else {
            answerable_ids(items)
        },
    decreases items.len(),
{
    assert(items.push(t).drop_last() =~= items);
    if items.len() > 0 {
        every_waiting_thread_is_listed(items.drop_last(), items.last());
    }
}

/// The threads that wait for an answer, in order.
pub fn answerable(items: &Vec<Thread>) -> (r: Vec<String>)
    ensures
        texts(r@) == answerable_ids(items@),
        r@.len() == waiting(items@),
{
    let mut out: Vec<String> = Vec::new();
    let mut i: usize = 0;
    proof {
        assert(texts(out@) =~= answerable_ids(items@.take(0)));
    }
    while i < items.len()
        invariant
            i <= items@.len(),
            texts(out@) == answerable_ids(items@.take(i as int)),
            out@.len() == waiting(items@.take(i as int)),
        decreases items@.len() - i,
    {
        proof {
            assert(items@.take(i + 1).drop_last() =~= items@.take(i as int));
            assert(items@.take(i + 1).last() == items@[i as int]);
        }
        if items[i].answerable {
            let ghost before = out@;
            out.push(items[i].id.clone());
            proof {
                assert(texts(out@) =~= texts(before).push(items@[i as int].id@));
            }
        }
        i += 1;
    }
    proof {
        assert(items@.take(i as int) =~= items@);
    }
    out
}

/// Why a run that posts proposals does not start, if it does not.
pub open spec fn posting_refusal(prs: Seq<Pr>, pr: u64, waiting: nat) -> Option<Said> {
    if polled(prs, pr) is None {
        Some(unpolled(pr))
    } else if waiting == 0 {
        Some(
            Said::Failed("PR #"@ + decimal(pr as nat) + " has no threads awaiting an answer"@),
        )
    } else {
        None
    }
}

/// A run that posts proposals starts exactly where its PR was polled and a thread of it waits
/// for an answer.
pub proof fn a_posting_run_starts_where_a_thread_waits(
    prs: Seq<Pr>,
    pr: u64,
    items: Seq<Thread>,
    i: int,
)
    ensures
        0 <= i < items.len() && items[i].answerable && polled(prs, pr) is Some ==> posting_refusal(
            prs,
            pr,
            waiting(items),
        ) is None,
        (forall|k: int| 0 <= k < items.len() ==> !(#[trigger] items[k]).answerable)
            ==> posting_refusal(prs, pr, waiting(items)) is Some,
        polled(prs, pr) is None ==> posting_refusal(prs, pr, waiting(items)) is Some,
    decreases items.len(),
{
    if items.len() > 0 {
        let front = items.drop_last();
        a_posting_run_starts_where_a_thread_waits(prs, pr, front, i);
        if 0 <= i < front.len() {
            assert(front[i] == items[i]);
        }
        if forall|k: int| 0 <= k < items.len() ==> !(#[trigger] items[k]).answerable {
            assert forall|k: int| 0 <= k < front.len() implies !(#[trigger] front[k]).answerable by {
                assert(front[k] == items[k]);
            }
            assert(!items[items.len() - 1].answerable);
        }
    }
}

/// Whether a run that posts proposals may start: the PR is known, and something waits
/// for an answer.
pub fn start_posting_run(prs: &Vec<Pr>, pr: u64, fetched: &Threads) -> (r: Result<(), ApiError>)
    ensures
        match posting_refusal(prs@, pr, waiting(fetched.items@)) {
            Some(why) => r is Err && r->Err_0@ == why,
            None => r is Ok,
        },
{
    match pr_from_poll(prs, pr) {
        Err(e) => {
            return Err(e);
        },
        Ok(_) => {},
    }
    if answerable(&fetched.items).len() == 0 {
        let n: String = number(pr);
        return Err(refuse(cat3("PR #", n.as_str(), " has no threads awaiting an answer")));
    }
    Ok(())
}

/// Why what a run proposes is not taken, if it is not: it is not the run that the PR
/// expects, or the branch moved on under it.
pub open spec fn proposals_refusal(
    expected: Option<Seq<char>>,
    keys: Keys,
    pr: u64,
    head: Option<Seq<char>>,
    base: Seq<char>,
    base_short: Seq<char>,
) -> Option<Said> {
    if proposal_key_refusal(expected, keys, pr) is Some {
        proposal_key_refusal(expected, keys, pr)
    } else {
        match head {
            None => None,
            Some(h) => if h == base {
                None
            } else {
                Some(
                    Said::Failed(
                        "the branch moved during triage ("@ + base_short + " → "@ + h
                            + "); its patches no longer apply"@,
                    ),
                )
            },
        }
    }
}

/// Whether what a run proposes is its PR's own, and about the branch as it stands: `base`
/// is the commit it read, `base_short` how that commit is called, and `head` the commit
/// that the branch is at, where the forge says.
pub fn pr_proposals(
    expected: Option<&str>,
    keys: &Keys,
    pr: u64,
    head: Option<&str>,
    base: &str,
    base_short: &str,
) -> (r: Result<(), ApiError>)
    ensures
        match proposals_refusal(
            opt_str(expected),
            *keys,
            pr,
            opt_str(head),
            base@,
            base_short@,
        ) {
            Some(why) => r is Err && r->Err_0@ == why,
            None => r is Ok,
        },
{
    match proposal_token_ok(expected, keys, pr) {
        Err(e) => {
            return Err(e);
        },
        Ok(()) => {},
    }
    match head {
        None => Ok(()),
        Some(h) => if same(h, base) {
            Ok(())
        } else {
            Err(
                refuse(
                    cat5(
                        "the branch moved during triage (",
                        base_short,
                        " → ",
                        h,
                        "); its patches no longer apply",
                    ),
                ),
            )
        },
    }
}

/// What a run proposes is taken wherever it is the run that the PR expects and the branch is
/// at the commit it read, or the forge does not say where it is; and never where it moved.
pub proof fn proposals_are_taken_where_the_branch_stood_still(
    expected: Option<Seq<char>>,
    keys: Keys,
    pr: u64,
    head: Option<Seq<char>>,
    base: Seq<char>,
    base_short: Seq<char>,
    list: Seq<Session>,
    repo: bool,
)
    requires
        proposal_key_refusal(expected, keys, pr) is None,
    ensures
        proposals_refusal(expected, keys, pr, head, base, base_short) is None <==> head is None
            || head->Some_0 == base,
        context_refusal(expected, keys, pr, repo) is None <==> repo,
        progress_refusal(list, expected, keys, pr) is None <==> reader(list, pr) is Some,
{
}

/// Nothing is told, recorded or taken about a PR but on the app token or on the token
/// that was minted for that PR: a run reads and proposes for its own PR alone.
pub proof fn a_run_speaks_for_its_own_pr(
    list: Seq<Session>,
    expected: Option<Seq<char>>,
    keys: Keys,
    pr: u64,
    head: Option<Seq<char>>,
    base: Seq<char>,
    base_short: Seq<char>,
    repo: bool,
)
    requires
        context_refusal(expected, keys, pr, repo) is None || progress_refusal(
            list,
            expected,
            keys,
            pr,
        ) is None || proposals_refusal(expected, keys, pr, head, base, base_short) is None,
    ensures
        opt_text(keys.token) == Some(keys.app_token@) || (opt_text(keys.token) is None
            && keys.app_token@.len() == 0) || (expected is Some && opt_text(keys.token) == expected
            && expected->Some_0.len() > 0),
{
}

/// Mark a pass as done once its proposals came in, if it ever reported how far it was.
pub fn proposals_posted(progress: &mut HashMap<u64, TriageProgress>, pr: u64)
    ensures
        if old(progress)@.contains_key(pr) {
            final(progress)@ == old(progress)@.insert(pr, handed_in(old(progress)@[pr]))
        } else {
            final(progress)@ == old(progress)@
        },
{
    let found: Option<TriageProgress> = match progress.get(&pr) {
        Some(at) => Some(*at),
        None => None,
    };
    match found {
        Some(at) => {
            let _ = progress.insert(
                pr,
                TriageProgress {
                    done: at.total,
                    total: at.total,
                    posted: true,
                    session: at.session,
                },
            );
        },
        None => {},
    }
}

/// One batch per PR at a time: the refusal of a second one.
pub fn one_batch_at_a_time(free: bool, pr: u64) -> (r: Result<(), ApiError>)
    ensures
        if free {
            r is Ok
        } else {
            r is Err && r->Err_0@ == Said::Failed(
                "a batch for PR #"@ + decimal(pr as nat)
                    + " is already running; wait for it rather than sending a second one"@,
            )
        },
{
    if free {
        Ok(())
    } else {
        let n: String = number(pr);
        Err(
            refuse(
                cat3(
                    "a batch for PR #",
                    n.as_str(),
                    " is already running; wait for it rather than sending a second one",
                ),
            ),
        )
    }
}

// ---------------------------------------------------------------------------
// The run that carries a review out
// ---------------------------------------------------------------------------

#[derive(Debug, Clone, Copy, PartialEq, Eq, Structural)]
pub enum ThreadStatus {
    /// A fix has to be committed first.
    Pending,
    /// There is nothing to build, only to say.
    WordsOnly,
    /// Its author has been told.
    Replied,
    /// Committed, and waiting for you.
    Held,
    NeedsYou,
    /// Yours to do by hand.
    Manual,
}

/// One thread of a plan.
pub struct PlanThread {
    pub thread_id: String,
    pub status: ThreadStatus,
    /// The words approved for it.
    pub reply: Option<String>,
    pub story: Option<StoryDraft>,
    /// Whether its stance is a bare thumbs up.
    pub thumbs_up: bool,
    pub note: Option<String>,
}

/// Why a resolve run does not start, if it does not: `gate` is what stands in the way
/// in the worktree.
pub open spec fn resolve_refusal(
    prs: Seq<Pr>,
    pr: u64,
    triaged: bool,
    gate: Option<Seq<char>>,
) -> Option<Said> {
    if polled(prs, pr) is None {
        Some(unpolled(pr))
    } else if !triaged {
        Some(Said::Failed("PR #"@ + decimal(pr as nat) + " has no triage to carry out"@))
    } else {
        match gate {
            Some(g) => Some(Said::Failed(g)),
            None => None,
        }
    }
}

/// Whether a run may carry a review out.
pub fn pr_resolve_run(prs: &Vec<Pr>, pr: u64, triaged: bool, gate: Option<&str>) -> (r: Result<
    (),
    ApiError,
>)
    ensures
        match resolve_refusal(prs@, pr, triaged, opt_str(gate)) {
            Some(why) => r is Err && r->Err_0@ == why,
            None => r is Ok,
        },
{
    match pr_from_poll(prs, pr) {
        Err(e) => {
            return Err(e);
        },
        Ok(_) => {},
    }
    if !triaged {
        let n: String = number(pr);
        return Err(refuse(cat3("PR #", n.as_str(), " has no triage to carry out")));
    }
    match gate {
        Some(g) => Err(refuse(g.to_owned())),
        None => Ok(()),
    }
}

/// A run carries a review out exactly where its PR was polled and triaged and nothing stands
/// in the way in its worktree.
pub proof fn a_triaged_review_may_be_carried_out(
    prs: Seq<Pr>,
    pr: u64,
    triaged: bool,
    gate: Option<Seq<char>>,
)
    ensures
        resolve_refusal(prs, pr, triaged, gate) is None <==> polled(prs, pr) is Some && triaged
            && gate is None,
{
}

/// The steps of a run that carries a review out.
#[derive(Debug, Clone, Copy, PartialEq, Eq, Structural)]
pub enum ResolveStep {
    /// See that it may run.
    Check,
    FetchThreads,
    Plan,
    /// Write its record down, under the id it will run as.
    Record,
    /// Start its session.
    Start,
    /// Take the record back.
    TakeBack,
    /// Answer the threads that need no code.
    Sweep,
}

/// What comes after a step of a run.
pub open spec fn resolve_after(last: Option<ResolveStep>, ok: bool) -> Option<ResolveStep> {
    match last {
        None => Some(ResolveStep::Check),
        Some(ResolveStep::Check) => if ok {
            Some(ResolveStep::FetchThreads)
        } else {
            None
        },
        Some(ResolveStep::FetchThreads) => if ok {
            Some(ResolveStep::Plan)
        } else {
            None
        },
        Some(ResolveStep::Plan) => if ok {
            Some(ResolveStep::Record)
        } else {
            None
        },
        Some(ResolveStep::Record) => Some(ResolveStep::Start),
        Some(ResolveStep::Start) => if ok {
            Some(ResolveStep::Sweep)
        } else {
            Some(ResolveStep::TakeBack)
        },
        Some(ResolveStep::TakeBack) => None,
        Some(ResolveStep::Sweep) => None,
    }
}

/// The next step of a run, after `last` went well or did not.
pub fn resolve_step(last: Option<ResolveStep>, ok: bool) -> (r: Option<ResolveStep>)
    ensures
        r == resolve_after(last, ok),
{
    match last {
        None => Some(ResolveStep::Check),
        Some(ResolveStep::Check) => if ok {
            Some(ResolveStep::FetchThreads)
        } else {
            None
        },
        Some(ResolveStep::FetchThreads) => if ok {
            Some(ResolveStep::Plan)
        } else {
            None
        },
        Some(ResolveStep::Plan) => if ok {
            Some(ResolveStep::Record)
        } else {
            None
        },
        Some(ResolveStep::Record) => Some(ResolveStep::Start),
        Some(ResolveStep::Start) => if ok {
            Some(ResolveStep::Sweep)
        } else {
            Some(ResolveStep::TakeBack)
        },
        Some(ResolveStep::TakeBack) => None,
        Some(ResolveStep::Sweep) => None,
    }
}

/// The steps of a run so far with their outcomes, in order.
pub open spec fn is_resolving(steps: Seq<(ResolveStep, bool)>) -> bool {
    forall|i: int|
        0 <= i < steps.len() ==> Some((#[trigger] steps[i]).0) == resolve_after(
            if i == 0 {
                None
            } else {
                Some(steps[i - 1].0)
            },
            i > 0 && steps[i - 1].1,
        )
}

/// A run has its record before its session starts, no thread is answered before the
/// session did start, and a record is taken back exactly where it did not.
pub proof fn a_run_is_recorded_before_it_starts(steps: Seq<(ResolveStep, bool)>, i: int)
    requires
        is_resolving(steps),
        0 <= i < steps.len(),
    ensures
        steps[i].0 == ResolveStep::Start ==> i > 0 && steps[i - 1].0 == ResolveStep::Record,
        steps[i].0 == ResolveStep::Sweep ==> i > 1 && steps[i - 1] == (ResolveStep::Start, true)
            && steps[i - 2].0 == ResolveStep::Record,
        steps[i].0 == ResolveStep::TakeBack ==> i > 1 && steps[i - 1] == (
            ResolveStep::Start,
            false,
        ) && steps[i - 2].0 == ResolveStep::Record,
        steps[i] == (ResolveStep::Start, false) && i + 1 < steps.len() ==> steps[i + 1].0
            == ResolveStep::TakeBack,
        resolve_after(Some(steps[i].0), steps[i].1) is None ==> i + 1 == steps.len(),
{
    if i > 0 {
        assert(Some(steps[i].0) == resolve_after(Some(steps[i - 1].0), steps[i - 1].1));
    }
    if i > 1 {
        assert(Some(steps[i - 1].0) == resolve_after(Some(steps[i - 2].0), steps[i - 2].1));
    }
    if i == 1 {
        assert(Some(steps[0].0) == resolve_after(None, false));
    }
    if i + 1 < steps.len() {
        assert(Some(steps[i + 1].0) == resolve_after(Some(steps[i].0), steps[i].1));
    }
}

/// A run that nothing fails is checked, planned, recorded and started, and ends by answering
/// what needs no code; and one whose session did not start ends by taking its record back.
pub proof fn a_run_goes_through(steps: Seq<(ResolveStep, bool)>)
    requires
        is_resolving(steps),
        steps.len() > 0,
        resolve_after(Some(steps.last().0), steps.last().1) is None,
        forall|i: int|
            0 <= i < steps.len() && (#[trigger] steps[i]).0 != ResolveStep::Start ==> steps[i].1,
    ensures
        steps.len() == 6,
        steps[0].0 == ResolveStep::Check,
        steps[1].0 == ResolveStep::FetchThreads,
        steps[2].0 == ResolveStep::Plan,
        steps[3].0 == ResolveStep::Record,
        steps[4].0 == ResolveStep::Start,
        steps[5].0 == if steps[4].1 {
            ResolveStep::Sweep
        } else {
            ResolveStep::TakeBack
        },
{
    assert(steps[0].0 == ResolveStep::Check);
    assert(steps.len() > 1);
    assert(steps[1].0 == ResolveStep::FetchThreads);
    assert(steps.len() > 2);
    assert(steps[2].0 == ResolveStep::Plan);
    assert(steps.len() > 3);
    assert(steps[3].0 == ResolveStep::Record);
    assert(steps.len() > 4);
    assert(steps[4].0 == ResolveStep::Start);
    assert(steps.len() > 5);
    assert(Some(steps[5].0) == resolve_after(Some(steps[4].0), steps[4].1));
    a_run_is_recorded_before_it_starts(steps, 5);
}

/// A run's record: the session it runs in, what it carries out, and whether it is over.
pub struct ResolveRun {
    pub session: SessionId,
    pub plan: Vec<PlanThread>,
    pub ended: bool,
}

/// Write a run's record down before the run starts, under the id it will run as.
pub fn run_starting(
    runs: &mut HashMap<u64, ResolveRun>,
    pr: u64,
    session: SessionId,
    plan: Vec<PlanThread>,
)
    ensures
        final(runs)@ == old(runs)@.insert(pr, (ResolveRun { session, plan, ended: false })),
{
    let _ = runs.insert(pr, ResolveRun { session, plan, ended: false });
}

/// Take the record back of a run that never started.
pub fn run_never_started(runs: &mut HashMap<u64, ResolveRun>, pr: u64)
    ensures
        final(runs)@ == old(runs)@.remove(pr),
{
    let _ = runs.remove(&pr);
}

/// What is done about one thread of a plan that needs no code.
#[derive(Debug, Clone, Copy, PartialEq, Eq, Structural)]
pub enum WordsStep {
    /// Nothing yet: its code comes first, or it is done.
    Leave,
    /// Post its reply.
    Reply,
    /// Give it a thumbs up.
    ThumbsUp,
    /// There was never anything to say, so it is done.
    Done,
}

pub open spec fn words_step(t: PlanThread) -> WordsStep {
    if t.status != ThreadStatus::WordsOnly {
        WordsStep::Leave
    } else if t.reply is Some {
        WordsStep::Reply
    } else if t.thumbs_up {
        WordsStep::ThumbsUp
    } else {
        WordsStep::Done
    }
}

pub fn words_only(t: &PlanThread) -> (r: WordsStep)
    ensures
        r == words_step(*t),
{
    if t.status != ThreadStatus::WordsOnly {
        WordsStep::Leave
    } else if t.reply.is_some() {
        WordsStep::Reply
    } else if t.thumbs_up {
        WordsStep::ThumbsUp
    } else {
        WordsStep::Done
    }
}

/// What came of answering a thread: posted or reacted, or why not.
pub type Answered = Result<Option<Posted>, String>;

/// A thread after it was tried to be answered. One with neither words nor a thumbs up is
/// answered by that, whatever else came of anything.
pub open spec fn answered_thread(before: PlanThread, outcome: Answered, after: PlanThread) -> bool {
    if words_step(before) == WordsStep::Done {
        after == (PlanThread { status: ThreadStatus::Replied, ..before })
    } else {
        match outcome {
            Ok(Some(Posted::HeldNoStory(why))) => after == (PlanThread {
                note: after.note,
                ..before
            }) && opt_text(after.note) == Some("story not filed — "@ + why@),
            Ok(_) => after == (PlanThread { status: ThreadStatus::Replied, ..before }),
            Err(e) => after == (PlanThread { note: after.note, ..before }) && opt_text(after.note)
                == Some("could not answer — "@ + e@),
        }
    }
}

/// Whether a thread counts as answered.
pub open spec fn was_answered(t: PlanThread, outcome: Answered) -> bool {
    match words_step(t) {
        WordsStep::Leave => false,
        WordsStep::Done => true,
        _ => outcome is Ok && !(outcome->Ok_0 matches Some(Posted::HeldNoStory(_))),
    }
}

fn mark(t: &mut PlanThread, outcome: &Answered) -> (r: bool)
    requires
        words_step(*old(t)) != WordsStep::Leave,
    ensures
        answered_thread(*old(t), *outcome, *final(t)),
        r == was_answered(*old(t), *outcome),
{
    if words_only(t) == WordsStep::Done {
        t.status = ThreadStatus::Replied;
        return true;
    }
    match outcome {
        Ok(Some(Posted::HeldNoStory(why))) => {
            t.note = Some(cat2("story not filed — ", why.as_str()));
            false
        },
        Ok(_) => {
            t.status = ThreadStatus::Replied;
            true
        },
        Err(e) => {
            t.note = Some(cat2("could not answer — ", e.as_str()));
            false
        },
    }
}

/// A thread that needs no code is answered the way it was decided: with its words where it
/// has any, else with a thumbs up where that is its stance, and else by nothing at all. One
/// that needs code or was answered is left alone.
pub proof fn a_thread_is_answered_as_it_was_decided(t: PlanThread)
    ensures
        words_step(t) == WordsStep::Leave <==> !(t.status is WordsOnly),
        words_step(t) == WordsStep::Reply <==> t.status is WordsOnly && t.reply is Some,
        words_step(t) == WordsStep::ThumbsUp <==> t.status is WordsOnly && t.reply is None
            && t.thumbs_up,
        words_step(t) == WordsStep::Done <==> t.status is WordsOnly && t.reply is None
            && !t.thumbs_up,
{
}

/// A thread counts as answered, and its author as told, exactly where its answer went out or
/// was there already, or there was nothing to send; otherwise it stays as it was, with why as
/// its note. What it says and whose it is never changes.
pub proof fn an_answered_thread_is_marked_so(before: PlanThread, outcome: Answered, after: PlanThread)
    requires
        words_step(before) != WordsStep::Leave,
        answered_thread(before, outcome, after),
    ensures
        outcome == Ok::<Option<Posted>, String>(Some(Posted::Sent)) || outcome == Ok::<
            Option<Posted>,
            String,
        >(Some(Posted::AlreadyThere)) || outcome == Ok::<Option<Posted>, String>(None)
            ==> was_answered(before, outcome) && after.status is Replied && after.note
            == before.note,
        was_answered(before, outcome) <==> after.status is Replied,
        before.reply is Some && (outcome is Err || (outcome->Ok_0 matches Some(
            Posted::HeldNoStory(_),
        ))) ==> !was_answered(before, outcome) && after.status == before.status && after.note
            is Some,
        after.thread_id == before.thread_id && after.reply == before.reply && after.story
            == before.story && after.thumbs_up == before.thumbs_up,
{
}

/// How many of the words-only threads of a plan were answered.
pub open spec fn answered_count(plan: Seq<PlanThread>, outcomes: Seq<Answered>) -> nat
    decreases plan.len(),
{
    if plan.len() == 0 || outcomes.len() != plan.len() {
        0
    } else {
        answered_count(plan.drop_last(), outcomes.drop_last()) + if was_answered(
            plan.last(),
            outcomes.last(),
        ) {
            1nat
        } else {
            0nat
        }
    }
}

/// A plan after what could be said was said.
pub open spec fn is_swept(
    before: Seq<PlanThread>,
    outcomes: Seq<Answered>,
    after: Seq<PlanThread>,
) -> bool {
    &&& after.len() == before.len()
    &&& forall|i: int|
        0 <= i < before.len() ==> if words_step(#[trigger] before[i]) == WordsStep::Leave {
            after[i] == before[i]
        } else {
            answered_thread(before[i], outcomes[i], after[i])
        }
}

/// Of a plan that was swept each thread that needs no code is tried and counted by itself,
/// whatever came of the others, and every other thread is as it was.
pub proof fn every_thread_is_swept_by_itself(
    before: Seq<PlanThread>,
    outcomes: Seq<Answered>,
    after: Seq<PlanThread>,
    i: int,
)
    requires
        is_swept(before, outcomes, after),
        outcomes.len() == before.len(),
        0 <= i < before.len(),
    ensures
        after.len() == before.len(),
        !(before[i].status is WordsOnly) ==> after[i] == before[i],
        before[i].status is WordsOnly ==> (after[i].status is Replied <==> was_answered(
            before[i],
            outcomes[i],
        )),
        answered_count(before, outcomes) == answered_count(before.drop_last(), outcomes.drop_last())
            + if was_answered(before.last(), outcomes.last()) {
            1nat
        } else {
            0
        },
{
}

/// Answer the threads that need no code, now rather than never. `outcomes` is what came
/// of each thread's words, where there is a forge to say them on; one that failed does not
/// stop the others. Returns how many were answered.
pub fn sweep_words_only(plan: &mut Vec<PlanThread>, outcomes: Option<&Vec<Answered>>) -> (r: usize)
    requires
        outcomes matches Some(o) ==> o@.len() == old(plan)@.len(),
    ensures
        match outcomes {
            Some(o) => is_swept(old(plan)@, o@, final(plan)@) && r == answered_count(
                old(plan)@,
                o@,
            ),
            None => final(plan)@ == old(plan)@ && r == 0,
        },
{
    let outcomes: &Vec<Answered> = match outcomes {
        Some(o) => o,
        None => {
            return 0;
        },
    };
    let n: usize = plan.len();
    let mut answered: usize = 0;
    let mut i: usize = 0;
    while i < n
        invariant
            n == old(plan)@.len(),
            n == outcomes@.len(),
            plan@.len() == n,
            i <= n,
            answered <= i,
            answered == answered_count(old(plan)@.take(i as int), outcomes@.take(i as int)),
            forall|k: int|
                0 <= k < i ==> if words_step(#[trigger] old(plan)@[k]) == WordsStep::Leave {
                    plan@[k] == old(plan)@[k]
                } else {
                    answered_thread(old(plan)@[k], outcomes@[k], plan@[k])
                },
            forall|k: int| i <= k < n ==> plan@[k] == old(plan)@[k],
        decreases n - i,
    {
        proof {
            assert(old(plan)@.take(i + 1).drop_last() =~= old(plan)@.take(i as int));
            assert(outcomes@.take(i + 1).drop_last() =~= outcomes@.take(i as int));
            assert(old(plan)@.take(i + 1).last() == old(plan)@[i as int]);
            assert(outcomes@.take(i + 1).last() == outcomes@[i as int]);
        }
        let step: WordsStep = words_only(&plan[i]);
        if step != WordsStep::Leave {
            let t: &mut PlanThread = &mut plan[i];
            if mark(t, &outcomes[i]) {
                answered += 1;
            }
        }
        i += 1;
    }
    proof {
        assert(old(plan)@.take(i as int) =~= old(plan)@);
        assert(outcomes@.take(i as int) =~= outcomes@);
    }
    answered
}

/// The threads of a plan whose authors have been told, in order: only those decide whose
/// review can be asked for again.
pub open spec fn replied_ids(plan: Seq<PlanThread>) -> Seq<Seq<char>>
    decreases plan.len(),
{
    if plan.len() == 0 {
        Seq::empty()
    } else if plan.last().status == ThreadStatus::Replied {
        replied_ids(plan.drop_last()).push(plan.last().thread_id@)
    } else {
        replied_ids(plan.drop_last())
    }
}

/// Every thread whose author was told is listed, and no other.
pub proof fn every_told_author_is_listed(plan: Seq<PlanThread>, t: PlanThread)
    ensures
        replied_ids(Seq::empty()).len() == 0,
        replied_ids(plan.push(t)) == if t.status is Replied {
            replied_ids(plan).push(t.thread_id@)
        } else {
            replied_ids(plan)
        },
{
    assert(plan.push(t).drop_last() =~= plan);
}

/// The threads of a PR's run whose authors have been told: none where there is no run.
pub fn replied_threads(runs: &HashMap<u64, ResolveRun>, pr: u64) -> (r: Vec<String>)
    ensures
        texts(r@) == if runs@.contains_key(pr) {
            replied_ids(runs@[pr].plan@)
        } else {
            Seq::empty()
        },
{
    match runs.get(&pr) {
        Some(run) => replied_in(&run.plan),
        None => {
            let none: Vec<String> = Vec::new();
            proof {
                assert(texts(none@) =~= Seq::empty());
            }
            none
        },
    }
}

fn replied_in(plan: &Vec<PlanThread>) -> (r: Vec<String>)
    ensures
        texts(r@) == replied_ids(plan@),
{
    let mut out: Vec<String> = Vec::new();
    let mut i: usize = 0;
    proof {
        assert(texts(out@) =~= replied_ids(plan@.take(0)));
    }
    while i < plan.len()
        invariant
            i <= plan@.len(),
            texts(out@) == replied_ids(plan@.take(i as int)),
        decreases plan@.len() - i,
    {
        proof {
            assert(plan@.take(i + 1).drop_last() =~= plan@.take(i as int));
            assert(plan@.take(i + 1).last() == plan@[i as int]);
        }
        if plan[i].status == ThreadStatus::Replied {
            let ghost before = out@;
            out.push(plan[i].thread_id.clone());
            proof {
                assert(texts(out@) =~= texts(before).push(plan@[i as int].thread_id@));
            }
        }
        i += 1;
    }
    proof {
        assert(plan@.take(i as int) =~= plan@);
    }
    out
}

/// Lines made of two texts with something between.
pub open spec fn lines_of(pairs: Seq<(String, String)>, between: Seq<char>, end: Seq<char>) -> Seq<
    Seq<char>,
> {
    pairs.map_values(|p: (String, String)| p.0@ + between + p.1@ + end)
}

fn make_lines(list: &Vec<(String, String)>, between: &str, end: &str) -> (r: Vec<String>)
    ensures
        texts(r@) == lines_of(list@, between@, end@),
{
    let mut out: Vec<String> = Vec::new();
    let mut i: usize = 0;
    while i < list.len()
        invariant
            i <= list@.len(),
            out@.len() == i,
            forall|k: int|
                0 <= k < i ==> (#[trigger] out@[k])@ == list@[k].0@ + between@ + list@[k].1@ + end@,
        decreases list@.len() - i,
    {
        out.push(cat4(list[i].0.as_str(), between, list[i].1.as_str(), end));
        i += 1;
    }
    proof {
        assert(texts(out@) =~= lines_of(list@, between@, end@));
    }
    out
}

/// How asking for a fresh review is reported: who could not be asked and why, and who
/// was held back and by which thread.
pub fn pr_run_rerequest(failed: &Vec<(String, String)>, held: &Vec<(String, String)>) -> (r: (
    Vec<String>,
    Vec<String>,
))
    ensures
        texts(r.0@) == lines_of(failed@, ": "@, ""@),
        texts(r.1@) == lines_of(held@, " — "@, " is still unanswered"@),
{
    (make_lines(failed, ": ", ""), make_lines(held, " — ", " is still unanswered"))
}

// ---------------------------------------------------------------------------
// Where a PR is worked on
// ---------------------------------------------------------------------------

/// What the overlay is shown of a review beside the threads themselves.
pub struct ReviewSummary {
    pub viewer: String,
    pub head_sha: Option<String>,
    /// How many threads wait for an answer.
    pub answerable: usize,
    /// Whether a phase of work by hand is open.
    pub manual: bool,
    /// What stands in the way in the worktree, if there is a worktree and anything does.
    pub blocked: Option<String>,
    /// Whether a story can be filed at all.
    pub tracker: bool,
}

/// Whether this is what the overlay is shown of a review.
pub open spec fn is_summary(
    r: ReviewSummary,
    fetched: Threads,
    manual_open: Option<bool>,
    worktree: bool,
    blocked: Option<String>,
    tracker: bool,
) -> bool {
    r == (ReviewSummary {
        viewer: fetched.viewer,
        head_sha: fetched.head_sha,
        answerable: r.answerable,
        manual: manual_open == Some(true),
        blocked: if worktree {
            blocked
        } else {
            None
        },
        tracker,
    }) && r.answerable == waiting(fetched.items@)
}

/// The overlay shows who is looking, at which commit, and how many threads wait; work by hand
/// exactly while it is open; and what stands in the way exactly where there is a tree for it to
/// stand in.
pub proof fn the_overlay_shows_what_is(
    r: ReviewSummary,
    fetched: Threads,
    manual_open: Option<bool>,
    worktree: bool,
    blocked: Option<String>,
    tracker: bool,
)
    requires
        is_summary(r, fetched, manual_open, worktree, blocked, tracker),
    ensures
        r.viewer == fetched.viewer && r.head_sha == fetched.head_sha,
        r.answerable == waiting(fetched.items@),
        r.manual <==> manual_open is Some && manual_open->Some_0,
        worktree ==> r.blocked == blocked,
        !worktree ==> r.blocked is None,
        r.tracker == tracker,
{
}

/// What the overlay is shown of a review. A phase that is closed is not one to resume,
/// and without a worktree nothing can be in the way.
pub fn pr_review(
    prs: &Vec<Pr>,
    pr: u64,
    fetched: &Threads,
    manual_open: Option<bool>,
    worktree: bool,
    blocked: Option<String>,
    tracker: bool,
) -> (r: Result<ReviewSummary, ApiError>)
    ensures
        if polled(prs@, pr) is None {
            r is Err && r->Err_0@ == unpolled(pr)
        } else {
            r is Ok && is_summary(r->Ok_0, *fetched, manual_open, worktree, blocked, tracker)
        },
{
    match pr_from_poll(prs, pr) {
        Err(e) => {
            return Err(e);
        },
        Ok(_) => {},
    }
    Ok(
        ReviewSummary {
            viewer: fetched.viewer.clone(),
            head_sha: match &fetched.head_sha {
                Some(s) => Some(s.clone()),
                None => None,
            },
            answerable: answerable(&fetched.items).len(),
            manual: matches!(manual_open, Some(true)),
            blocked: if worktree {
                blocked
            } else {
                None
            },
            tracker,
        },
    )
}

pub struct CommitBody {
    pub message: String,
}

pub struct OpenPr {
    /// `worktree` or `main`.
    pub place: String,
}

#[derive(Debug, Clone, Copy, PartialEq, Eq, Structural)]
pub enum OpenAt {
    Worktree,
    Main,
}

/// Where a PR is opened, or why it is not.
pub open spec fn opening_of(place: Seq<char>, prs: Seq<Pr>, pr: u64, lock_free: bool) -> Result<
    OpenAt,
    Said,
> {
    if polled(prs, pr) is None {
        Err(unpolled(pr))
    } else if place == "worktree"@ {
        Ok(OpenAt::Worktree)
    } else if place != "main"@ {
        Err(Said::Failed("unknown place "@ + place))
    } else if lock_free {
        Ok(OpenAt::Main)
    } else {
        Err(
            Said::Failed(
                "a swap is already running; it moves main's checkout, so give it a moment and look at the rail before asking again"@,
            ),
        )
    }
}

/// A PR that was polled is opened where it was asked to be: in a worktree whatever main does,
/// in main while nothing moves it, and nowhere else.
pub proof fn a_pr_is_opened_where_it_was_asked(
    place: Seq<char>,
    prs: Seq<Pr>,
    pr: u64,
    lock_free: bool,
)
    ensures
        opening_of(place, prs, pr, lock_free) == Ok::<OpenAt, Said>(OpenAt::Worktree) <==> polled(
            prs,
            pr,
        ) is Some && place == "worktree"@,
        opening_of(place, prs, pr, lock_free) == Ok::<OpenAt, Said>(OpenAt::Main) <==> polled(
            prs,
            pr,
        ) is Some && place == "main"@ && lock_free,
{
    reveal_strlit("worktree");
    reveal_strlit("main");
    assert("worktree"@.len() == 8 && "main"@.len() == 4);
}

/// Where a PR is opened, or why it is not: `lock_free` is whether main's checkout may
/// be moved now.
pub fn open_pr(body: &OpenPr, prs: &Vec<Pr>, pr: u64, lock_free: bool) -> (r: Result<
    OpenAt,
    ApiError,
>)
    ensures
        match opening_of(body.place@, prs@, pr, lock_free) {
            Ok(at) => r == Ok::<OpenAt, ApiError>(at),
            Err(why) => r is Err && r->Err_0@ == why,
        },
{
    match pr_from_poll(prs, pr) {
        Err(e) => {
            return Err(e);
        },
        Ok(_) => {},
    }
    if same(body.place.as_str(), "worktree") {
        return Ok(OpenAt::Worktree);
    }
    if !same(body.place.as_str(), "main") {
        return Err(refuse(cat2("unknown place ", body.place.as_str())));
    }
    if lock_free {
        Ok(OpenAt::Main)
    } else {
        Err(
            refuse(
                "a swap is already running; it moves main's checkout, so give it a moment and look at the rail before asking again".to_owned(),
            ),
        )
    }
}

/// Why there is no worktree to commit or stash in, if there is none.
pub open spec fn gate_refusal(prs: Seq<Pr>, pr: u64, workspace: bool, path: bool) -> Option<Said> {
    if polled(prs, pr) is None {
        Some(unpolled(pr))
    } else if !workspace {
        Some(Said::Failed("no worktree for PR #"@ + decimal(pr as nat) + " yet"@))
    } else if !path {
        Some(Said::Failed("the worktree for PR #"@ + decimal(pr as nat) + " vanished"@))
    } else {
        None
    }
}

/// A PR's worktree is acted on exactly where the PR was polled and the worktree that holds
/// its branch is known and stands.
pub proof fn a_standing_worktree_is_acted_on(prs: Seq<Pr>, pr: u64, workspace: bool, path: bool)
    ensures
        gate_refusal(prs, pr, workspace, path) is None <==> polled(prs, pr) is Some && workspace
            && path,
{
}

/// The worktree that committing and stashing act on, refusing when there is none:
/// `workspace` is whether one holds the PR's branch, and `path` where that is.
pub fn gate_worktree(prs: &Vec<Pr>, pr: u64, workspace: bool, path: Option<String>) -> (r: Result<
    String,
    ApiError,
>)
    ensures
        match gate_refusal(prs@, pr, workspace, path is Some) {
            Some(why) => r is Err && r->Err_0@ == why,
            None => path is Some && r == Ok::<String, ApiError>(path->Some_0),
        },
{
    match pr_from_poll(prs, pr) {
        Err(e) => {
            return Err(e);
        },
        Ok(_) => {},
    }
    let n: String = number(pr);
    if !workspace {
        return Err(refuse(cat3("no worktree for PR #", n.as_str(), " yet")));
    }
    match path {
        Some(p) => Ok(p),
        None => Err(refuse(cat3("the worktree for PR #", n.as_str(), " vanished"))),
    }
}

// ---------------------------------------------------------------------------
// Files
// ---------------------------------------------------------------------------

pub struct FileQuery {
    pub workspace: String,
    pub path: String,
    /// Read the file as it was at this base instead of from the working tree.
    pub base: Option<String>,
    pub pr_base: Option<String>,
}

pub struct WriteBody {
    pub workspace: String,
    pub path: String,
    pub content: String,
    /// The version the buffer was loaded at.
    pub version: String,
}

pub struct FileContents {
    pub path: String,
    pub bytes: u64,
    pub version: String,
    pub content: String,
}

/// Where a file is read.
#[derive(Debug, Clone, Copy, PartialEq, Eq, Structural)]
pub enum ReadFrom {
    /// As it was at the base that was named.
    Base,
    /// In the working tree.
    Tree,
}

/// Where a file is read.
pub open spec fn read_from(query: FileQuery) -> ReadFrom {
    if query.base is Some {
        ReadFrom::Base
    } else {
        ReadFrom::Tree
    }
}

/// A file is read from the tree unless a base is named, and from the base where one is.
pub proof fn a_file_is_read_where_it_was_asked_for(query: FileQuery)
    ensures
        read_from(query) is Base <==> query.base is Some,
        read_from(query) is Tree <==> query.base is None,
{
}

/// Where a file is read, in a workspace that is known.
pub fn read_file(query: &FileQuery, known: bool) -> (r: Result<ReadFrom, ApiError>)
    ensures
        if !known {
            r is Err && r->Err_0@ == Said::Failed("unknown workspace "@ + query.workspace@)
        } else {
            r == Ok::<ReadFrom, ApiError>(read_from(*query))
        },
{
    if !known {
        return Err(refuse(cat2("unknown workspace ", query.workspace.as_str())));
    }
    if query.base.is_some() {
        Ok(ReadFrom::Base)
    } else {
        Ok(ReadFrom::Tree)
    }
}

/// A file as it was at a base: with no version, because a revision is never written
/// back.
pub fn file_at_base(query: &FileQuery, content: String) -> (r: FileContents)
    ensures
        r.path == query.path,
        r.bytes == byte_len(content@),
        r.version@ == ""@,
        r.content == content,
{
    let size: usize = bytes(content.as_str());
    FileContents { path: query.path.clone(), bytes: size as u64, version: "".to_owned(), content }
}

/// What follows a write: only one that went through is news to the agents that hold the
/// old copy, and to the panes.
#[derive(Debug, Clone, Copy, PartialEq, Eq, Structural)]
pub enum AfterWrite {
    Nothing,
    /// Tell the agents, and measure the tree again.
    RecordAndReconcile,
}

/// Whether a file may be written, and where: only into a workspace that is known.
pub fn write_file(body: &WriteBody, root: Option<&str>) -> (r: Result<String, ApiError>)
    ensures
        match opt_str(root) {
            Some(at) => r is Ok && r->Ok_0@ == at,
            None => r is Err && r->Err_0@ == Said::Failed(
                "unknown workspace "@ + body.workspace@,
            ),
        },
{
    match root {
        Some(at) => Ok(at.to_owned()),
        None => Err(refuse(cat2("unknown workspace ", body.workspace.as_str()))),
    }
}

/// What follows a write.
pub open spec fn after_writing(written: bool) -> AfterWrite {
    if written {
        AfterWrite::RecordAndReconcile
    } else {
        AfterWrite::Nothing
    }
}

/// Only what was written is recorded, and all of it is.
pub proof fn what_was_written_is_recorded(written: bool)
    ensures
        after_writing(written) is RecordAndReconcile <==> written,
        after_writing(written) is Nothing <==> !written,
{
}

pub fn after_write(written: bool) -> (r: AfterWrite)
    ensures
        r == after_writing(written),
{
    if written {
        AfterWrite::RecordAndReconcile
    } else {
        AfterWrite::Nothing
    }
}

// ---------------------------------------------------------------------------
// The review's hand-off
// ---------------------------------------------------------------------------

/// The PR that a session reviews, if it is a review session.
pub open spec fn reviewed(s: Session) -> Option<u64> {
    match s.pass {
        Some(p) => if p.command@ == Pass::REVIEW@ {
            Some(p.pr)
        } else {
            None
        },
        None => None,
    }
}

/// Why a session does not hand its checks on, if it does not.
pub open spec fn handoff_refusal(list: Seq<Session>, keys: Keys, id: SessionId) -> Option<Said> {
    if ask_key_refusal(list, keys, id) is Some {
        ask_key_refusal(list, keys, id)
    } else if seated(list, id) && reviewed(list[seat(list, id)]) is Some {
        None
    } else {
        Some(
            Said::Failed(
                "only a review session hands over, and "@ + hyphenated(id) + " is not one"@,
            ),
        )
    }
}

/// The PR that a review session is about to hand over, if the caller is one and says so
/// itself.
pub fn handoff_pr(list: &Vec<Session>, keys: &Keys, id: SessionId) -> (r: Result<u64, ApiError>)
    ensures
        match handoff_refusal(list@, *keys, id) {
            Some(why) => r is Err && r->Err_0@ == why,
            None => r == Ok::<u64, ApiError>(reviewed(list@[seat(list@, id)])->Some_0),
        },
{
    match ask_token_ok(list, keys, id) {
        Err(e) => {
            return Err(e);
        },
        Ok(()) => {},
    }
    match locate(list, id) {
        Some(i) => match &list[i].pass {
            Some(p) => {
                if same(p.command.as_str(), Pass::REVIEW) {
                    return Ok(p.pr);
                }
            },
            None => {},
        },
        None => {},
    }
    let text: String = session_text(id);
    Err(refuse(cat3("only a review session hands over, and ", text.as_str(), " is not one")))
}

/// A review session reports that its own work is finished: its exit starts a run only
/// where its PR still wants watching. `wants_watching` says so of a PR, from the daemon's
/// own poll, and is false of one that was not polled.
pub fn session_handoff(
    list: &mut Vec<Session>,
    keys: &Keys,
    id: SessionId,
    wants_watching: bool,
) -> (r: Result<bool, ApiError>)
    ensures
        same_ids(old(list)@, final(list)@),
        match handoff_refusal(old(list)@, *keys, id) {
            Some(why) => r is Err && r->Err_0@ == why && final(list)@ == old(list)@,
            None => {
                let i = seat(old(list)@, id);
                &&& r == Ok::<bool, ApiError>(wants_watching)
                &&& final(list)@ == old(list)@.update(
                    i,
                    (Session { fix_pr_on_exit: wants_watching, ..old(list)@[i] }),
                )
            },
        },
{
    match handoff_pr(list, keys, id) {
        Err(e) => Err(e),
        Ok(_) => {
            match locate(list, id) {
                Some(i) => {
                    proof {
                        lemma_seat_found(list@, id);
                    }
                    let s: &mut Session = &mut list[i];
                    s.fix_pr_on_exit = wants_watching;
                },
                None => {},
            }
            Ok(wants_watching)
        },
    }
}

/// Only a review ever arms a run on its exit, and only about a PR that wants watching.
pub proof fn only_a_review_hands_over(list: Seq<Session>, keys: Keys, id: SessionId)
    requires
        handoff_refusal(list, keys, id) is None,
    ensures
        seated(list, id),
        list[seat(list, id)].pass is Some,
        list[seat(list, id)].pass->Some_0.command@ == Pass::REVIEW@,
{
}

/// A review session that says so itself hands over wherever it is on record, whatever else it
/// is doing, and nobody else does.
pub proof fn a_review_hands_over(list: Seq<Session>, keys: Keys, id: SessionId, i: int)
    requires
        0 <= i < list.len(),
        list[i].id == id,
        forall|k: int| 0 <= k < i ==> (#[trigger] list[k]).id != id,
        ask_key_refusal(list, keys, id) is None,
    ensures
        handoff_refusal(list, keys, id) is None <==> list[i].pass is Some
            && list[i].pass->Some_0.command@ == "review"@,
        list[i].pass is Some && list[i].pass->Some_0.command@ == "review"@ ==> reviewed(list[i])
            == Some(list[i].pass->Some_0.pr),
{
    crate::sessions::lemma_seat(list, id, i);
}

/// Everybody who could not be asked for a review is named with the reason, and everybody who
/// was held back with the thread; in their order, one line each.
pub proof fn everybody_passed_over_is_named(
    pairs: Seq<(String, String)>,
    between: Seq<char>,
    end: Seq<char>,
    i: int,
)
    ensures
        lines_of(pairs, between, end).len() == pairs.len(),
        0 <= i < pairs.len() ==> lines_of(pairs, between, end)[i] == pairs[i].0@ + between
            + pairs[i].1@ + end,
{
}

/// A run is sent to its own PR's routes on this machine, and no two PRs share one.
pub proof fn every_pr_has_its_own_routes(port: u16, a: u64, b: u64)
    ensures
        pr_base_url(port, a) == "http://127.0.0.1:"@ + decimal(port as nat) + "/api/pr/"@ + decimal(
            a as nat,
        ),
        pr_base_url(port, a) == pr_base_url(port, b) ==> a == b,
{
    let (x, y) = (pr_base_url(port, a), pr_base_url(port, b));
    let n = ("http://127.0.0.1:"@ + decimal(port as nat) + "/api/pr/"@).len() as int;
    assert(x.skip(n) =~= decimal(a as nat));
    assert(y.skip(n) =~= decimal(b as nat));
    crate::text::a_number_is_written_with_its_digits(a as nat);
    crate::text::a_number_is_written_with_its_digits(b as nat);
}

/// How far into a run a step stands.
pub open spec fn resolve_turn(step: ResolveStep) -> int {
    match step {
        ResolveStep::Check => 0,
        ResolveStep::FetchThreads => 1,
        ResolveStep::Plan => 2,
        ResolveStep::Record => 3,
        ResolveStep::Start => 4,
        ResolveStep::Sweep => 5,
        ResolveStep::TakeBack => 5,
    }
}

#[verifier::spinoff_prover]
#[verifier::rlimit(50)]
proof fn lemma_resolve_turns(steps: Seq<(ResolveStep, bool)>, i: int, j: int)
    requires
        is_resolving(steps),
        0 <= i < j < steps.len(),
    ensures
        resolve_turn(steps[i].0) < resolve_turn(steps[j].0),
    decreases j - i,
{
    assert(Some(steps[j].0) == resolve_after(Some(steps[j - 1].0), steps[j - 1].1));
    if i < j - 1 {
        lemma_resolve_turns(steps, i, j - 1);
    }
}

/// Every run starts with its check, does no step twice, and stops where the check, the threads
/// or the plan could not be had.
pub proof fn a_run_never_goes_back(steps: Seq<(ResolveStep, bool)>, ok: bool, i: int, j: int)
    ensures
        resolve_after(None, ok) == Some(ResolveStep::Check),
        is_resolving(steps) && 0 <= i < j < steps.len() ==> steps[i].0 != steps[j].0,
        is_resolving(steps) && 0 <= i < steps.len() && !steps[i].1 && (steps[i].0 is Check
            || steps[i].0 is FetchThreads || steps[i].0 is Plan) ==> i == steps.len() - 1,
{
    if is_resolving(steps) && 0 <= i < j < steps.len() {
        lemma_resolve_turns(steps, i, j);
    }
    if is_resolving(steps) && 0 <= i < steps.len() - 1 {
        assert(Some(steps[i + 1].0) == resolve_after(Some(steps[i].0), steps[i].1));
    }
}

/// A review's requests are refused for good where they are refused, but for a session that is
/// not there.
pub proof fn a_review_is_refused_by_kind(
    list: Seq<Session>,
    expected: Option<Seq<char>>,
    keys: Keys,
    id: SessionId,
    prs: Seq<Pr>,
    pr: u64,
    repo: bool,
    waiting: nat,
    triaged: bool,
    gate: Option<Seq<char>>,
    workspace: bool,
    path: bool,
)
    ensures
        context_refusal(expected, keys, pr, repo) matches Some(w) ==> w.status() == 400,
        progress_refusal(list, expected, keys, pr) matches Some(w) ==> w.status() == 400,
        posting_refusal(prs, pr, waiting) matches Some(w) ==> w.status() == 400,
        resolve_refusal(prs, pr, triaged, gate) matches Some(w) ==> w.status() == 400,
        gate_refusal(prs, pr, workspace, path) matches Some(w) ==> w.status() == 400,
        handoff_refusal(list, keys, id) matches Some(w) ==> (w.status() == 404 ==> !seated(list, id))
            && w.status() != 409,
{
}

} // verus!
