//! Filing a tracker story for a review comment that is fair but out of scope.
//!
//! Stories are re-derived, not remembered: every story's body carries the thread's own
//! link, so a later run finds the story rather than making another.

use vstd::prelude::*;
use vstd::string::*;
use crate::api::{refuse, ApiError, Said};
use crate::ids::{hyphenated, session_text};
use crate::model::{Cache, Moment, Pass, Session, SessionId, StoryRef};
use crate::paths::{inside, path_in};
use crate::spawn::record::{is_new, Launch};
use crate::spawn::runs::{pairs, run_env, Environment};
use crate::text::{
    as_deref, cat2, cat3, cat4, cat5, copies, decimal, number, opt_str, opt_text, same, texts, trim,
    trim_end, trimmed, without_trailing,
};
use crate::tracker::{points_at, servable_story, served};

verus! {

/// The text approved for a story.
pub struct StoryDraft {
    pub title: String,
    pub body: String,
}

/// One story asked for: which thread it answers, and the text approved on the card.
pub struct Wanted {
    pub thread_id: String,
    pub draft: StoryDraft,
    /// The thread's own URL: appended to the body, and what a later run searches for.
    pub permalink: String,
}

/// A story that now exists, and whether it was already there.
#[derive(Debug)]
pub struct Filed {
    pub story: StoryRef,
    pub reused: bool,
}

impl Clone for Filed {
    fn clone(&self) -> (r: Self)
        ensures
            r == *self,
    {
        Filed { story: self.story.clone(), reused: self.reused }
    }
}

/// What the agent writes of one thread into its report.
#[derive(Debug)]
pub struct Reported {
    pub thread_id: String,
    pub id: Option<String>,
    pub url: Option<String>,
    /// False when the search found it already there.
    pub created: bool,
    pub error: Option<String>,
}

/// The story of one thread, or why there is not one.
pub type Outcome = Result<Filed, String>;

/// The line appended to every story body, and what a later run searches for.
pub open spec fn source_text(pr: u64, permalink: Seq<char>) -> Seq<char> {
    "Source: review of #"@ + decimal(pr as nat) + " — "@ + permalink
}

pub fn source_line(pr: u64, permalink: &str) -> (r: String)
    ensures
        r@ == source_text(pr, permalink@),
{
    let n: String = number(pr);
    cat4("Source: review of #", n.as_str(), " — ", permalink)
}

// ---------------------------------------------------------------------------
// What a report is worth
// ---------------------------------------------------------------------------

/// A thread's outcome, its texts as texts: the story's id and URL and whether it was
/// there before, or why there is none.
pub enum Told {
    Story { id: Seq<char>, url: Seq<char>, reused: bool },
    Nothing(Seq<char>),
}

pub open spec fn told(o: Outcome) -> Told {
    match o {
        Ok(f) => Told::Story {
            id: f.story.id_text(),
            url: f.story.url_text(),
            reused: f.reused,
        },
        Err(e) => Told::Nothing(e@),
    }
}

/// What one reported entry is worth: its error, or its story where the id and the URL
/// hang together on the tracker's host.
pub open spec fn accepted(r: Reported, host: Seq<char>) -> Told {
    match r.error {
        Some(e) => Told::Nothing(e@),
        None => match (r.id, r.url) {
            (Some(id), Some(url)) => if points_at(trimmed(id@), trimmed(url@), host) {
                Told::Story { id: trimmed(id@), url: trimmed(url@), reused: !r.created }
            } else {
                Told::Nothing(
                    "reported "@ + trimmed(id@) + " with url "@ + trimmed(url@)
                        + ", which is not that story — refusing to link it"@,
                )
            },
            _ => Told::Nothing("reported neither a story nor an error"@),
        },
    }
}

/// Turn one reported entry into a result, refusing a pair that does not hang together.
pub fn accept(r: &Reported, host: &str) -> (o: Outcome)
    ensures
        told(o) == accepted(*r, host@),
{
    match &r.error {
        Some(e) => {
            return Err(e.clone());
        },
        None => {},
    }
    match (&r.id, &r.url) {
        (Some(id), Some(url)) => match StoryRef::new(id.as_str(), url.as_str(), host) {
            Some(story) => Ok(Filed { story, reused: !r.created }),
            None => {
                let a: String = trim(id.as_str());
                let b: String = trim(url.as_str());
                Err(
                    cat5(
                        "reported ",
                        a.as_str(),
                        " with url ",
                        b.as_str(),
                        ", which is not that story — refusing to link it",
                    ),
                )
            },
        },
        _ => Err("reported neither a story nor an error".to_owned()),
    }
}

/// A reported story is taken wherever its id and its URL hang together and no error is
/// reported with it, as found before exactly where it was not created now; an error is passed
/// on, and a pair that does not hang together is never linked.
pub proof fn a_sound_report_is_taken(r: Reported, host: Seq<char>, id: String, url: String, e: String)
    ensures
        r.error == Some(e) ==> accepted(r, host) == Told::Nothing(e@),
        r.error is None && r.id == Some(id) && r.url == Some(url) && points_at(
            trimmed(id@),
            trimmed(url@),
            host,
        ) ==> accepted(r, host) == (Told::Story {
            id: trimmed(id@),
            url: trimmed(url@),
            reused: !r.created,
        }),
        accepted(r, host) is Story ==> r.error is None && r.id is Some && r.url is Some
            && points_at(trimmed(r.id->Some_0@), trimmed(r.url->Some_0@), host),
{
}

/// The first entry of a report about a thread.
pub open spec fn report_of(reported: Seq<Reported>, thread: Seq<char>) -> Option<Reported>
    decreases reported.len(),
{
    if reported.len() == 0 {
        None
    } else if reported[0].thread_id@ == thread {
        Some(reported[0])
    } else {
        report_of(reported.skip(1), thread)
    }
}

fn find_report<'a>(reported: &'a Vec<Reported>, thread: &str) -> (r: Option<&'a Reported>)
    ensures
        report_of(reported@, thread@) == match r {
            Some(e) => Some(*e),
            None => None,
        },
{
    let mut i: usize = 0;
    proof {
        assert(reported@.skip(0) =~= reported@);
    }
    while i < reported.len()
        invariant
            i <= reported@.len(),
            report_of(reported@, thread@) == report_of(reported@.skip(i as int), thread@),
        decreases reported@.len() - i,
    {
        if same(reported[i].thread_id.as_str(), thread) {
            return Some(&reported[i]);
        }
        proof {
            assert(reported@.skip(i as int).skip(1) =~= reported@.skip(i + 1));
        }
        i += 1;
    }
    None
}

/// A thread is told what a report says of it, the first entry where there are several, and
/// nothing of any other thread's.
pub proof fn a_thread_is_told_of_its_own_story(reported: Seq<Reported>, thread: Seq<char>, i: int)
    ensures
        report_of(reported, thread) matches Some(r) ==> r.thread_id@ == thread && reported.contains(
            r,
        ),
        0 <= i < reported.len() && reported[i].thread_id@ == thread && (forall|k: int|
            0 <= k < i ==> (#[trigger] reported[k]).thread_id@ != thread) ==> report_of(
            reported,
            thread,
        ) == Some(reported[i]),
        (forall|k: int|
            0 <= k < reported.len() ==> (#[trigger] reported[k]).thread_id@ != thread)
            ==> report_of(reported, thread) is None,
    decreases reported.len(),
{
    if reported.len() > 0 {
        let rest = reported.skip(1);
        assert(reported.contains(reported[0]));
        a_thread_is_told_of_its_own_story(rest, thread, i - 1);
        if let Some(r) = report_of(rest, thread) {
            let k = choose|k: int| 0 <= k < rest.len() && rest[k] == r;
            assert(reported[k + 1] == r);
        }
        if 0 < i < reported.len() && reported[i].thread_id@ == thread && (forall|k: int|
            0 <= k < i ==> (#[trigger] reported[k]).thread_id@ != thread) {
            assert(reported[0].thread_id@ != thread);
            assert(rest[i - 1] == reported[i]);
            assert forall|k: int| 0 <= k < i - 1 implies (#[trigger] rest[k]).thread_id@
                != thread by {
                assert(reported[k + 1].thread_id@ != thread);
            }
        }
        if forall|k: int|
            0 <= k < reported.len() ==> (#[trigger] reported[k]).thread_id@ != thread {
            assert(reported[0].thread_id@ != thread);
            assert forall|k: int| 0 <= k < rest.len() implies (#[trigger] rest[k]).thread_id@
                != thread by {
                assert(reported[k + 1].thread_id@ != thread);
            }
        }
    }
}

// ---------------------------------------------------------------------------
// Filing a batch
// ---------------------------------------------------------------------------

/// The threads of a batch that no cached story answers.
pub open spec fn missing(
    cache: Map<(u64, Seq<char>), StoryRef>,
    pr: u64,
    wanted: Seq<Wanted>,
    host: Option<Seq<char>>,
) -> Seq<int>
    decreases wanted.len(),
{
    if wanted.len() == 0 {
        Seq::empty()
    } else {
        let front = missing(cache, pr, wanted.drop_last(), host);
        if served(cache, pr, wanted.last().thread_id@, host) is None {
            front.push(wanted.len() - 1)
        } else {
            front
        }
    }
}

/// Which threads of a batch the filer has to be asked about, by their place.
pub fn unfiled(cache: &Cache, pr: u64, wanted: &Vec<Wanted>, host: Option<&str>) -> (r: Vec<usize>)
    requires
        cache.wf(),
    ensures
        r@.map_values(|i: usize| i as int) == missing(
            cache.view(),
            pr,
            wanted@,
            opt_str(host),
        ),
{
    let mut out: Vec<usize> = Vec::new();
    let mut i: usize = 0;
    proof {
        assert(out@.map_values(|i: usize| i as int) =~= missing(
            cache.view(),
            pr,
            wanted@.take(0),
            opt_str(host),
        ));
    }
    while i < wanted.len()
        invariant
            cache.wf(),
            i <= wanted@.len(),
            out@.map_values(|i: usize| i as int) == missing(
                cache.view(),
                pr,
                wanted@.take(i as int),
                opt_str(host),
            ),
        decreases wanted@.len() - i,
    {
        proof {
            assert(wanted@.take(i + 1).drop_last() =~= wanted@.take(i as int));
            assert(wanted@.take(i + 1).last() == wanted@[i as int]);
        }
        if cache.get(pr, wanted[i].thread_id.as_str(), host).is_none() {
            let ghost before = out@;
            out.push(i);
            proof {
                assert(out@.map_values(|i: usize| i as int) =~= before.map_values(
                    |i: usize| i as int,
                ).push(i as int));
            }
        }
        i += 1;
    }
    proof {
        assert(wanted@.take(i as int) =~= wanted@);
    }
    out
}

/// The threads of a batch that the filer is asked about: those that no cached story
/// answers, and none at all where there is no tracker to file into.
pub open spec fn asked(
    cache: Map<(u64, Seq<char>), StoryRef>,
    pr: u64,
    wanted: Seq<Wanted>,
    host: Option<Seq<char>>,
) -> Seq<int> {
    if host is None {
        Seq::empty()
    } else {
        missing(cache, pr, wanted, host)
    }
}

/// Which threads of a batch the filer is asked about, by their place. It is run only where
/// there is any.
pub fn to_ask(cache: &Cache, pr: u64, wanted: &Vec<Wanted>, host: Option<&str>) -> (r: Vec<usize>)
    requires
        cache.wf(),
    ensures
        r@.map_values(|i: usize| i as int) == asked(cache.view(), pr, wanted@, opt_str(host)),
{
    if host.is_none() {
        let none: Vec<usize> = Vec::new();
        proof {
            assert(none@.map_values(|i: usize| i as int) =~= Seq::empty());
        }
        return none;
    }
    unfiled(cache, pr, wanted, host)
}

/// What a run of the filer came to: its report, or why there is none.
pub type Run = Result<Vec<Reported>, String>;

/// What a thread is told of its story, given the cache, the tracker's host and the run.
pub open spec fn thread_outcome(
    cache: Map<(u64, Seq<char>), StoryRef>,
    pr: u64,
    thread: Seq<char>,
    host: Option<Seq<char>>,
    run: Run,
) -> Told {
    match served(cache, pr, thread, host) {
        Some(hit) => Told::Story { id: hit.id_text(), url: hit.url_text(), reused: true },
        None => match host {
            None => Told::Nothing("no tracker is configured, so no story can be filed"@),
            Some(h) => match run {
                Err(why) => Told::Nothing(why@),
                Ok(reported) => match report_of(reported@, thread) {
                    Some(r) => accepted(r, h),
                    None => Told::Nothing(
                        "the story run reported nothing for this thread. If it got as far as filing, the next attempt will find that story by its link back to the thread rather than making a second one."@,
                    ),
                },
            },
        },
    }
}

/// A run tells only of what it was asked about: every other thread's story is the same
/// whatever a run came to. So where nothing is asked about, none is needed.
pub proof fn a_run_tells_only_of_what_was_asked(
    cache: Map<(u64, Seq<char>), StoryRef>,
    pr: u64,
    wanted: Seq<Wanted>,
    host: Option<Seq<char>>,
    one: Run,
    other: Run,
    i: int,
)
    requires
        0 <= i < wanted.len(),
        !asked(cache, pr, wanted, host).contains(i),
    ensures
        thread_outcome(cache, pr, wanted[i].thread_id@, host, one) == thread_outcome(
            cache,
            pr,
            wanted[i].thread_id@,
            host,
            other,
        ),
{
    if host is Some && served(cache, pr, wanted[i].thread_id@, host) is None {
        lemma_missing(cache, pr, wanted, host, i);
    }
}

proof fn lemma_missing(
    cache: Map<(u64, Seq<char>), StoryRef>,
    pr: u64,
    wanted: Seq<Wanted>,
    host: Option<Seq<char>>,
    i: int,
)
    requires
        0 <= i < wanted.len(),
        served(cache, pr, wanted[i].thread_id@, host) is None,
    ensures
        missing(cache, pr, wanted, host).contains(i),
    decreases wanted.len(),
{
    let front = wanted.drop_last();
    let some = missing(cache, pr, front, host);
    let all = missing(cache, pr, wanted, host);
    if i < front.len() {
        assert(front[i] == wanted[i]);
        lemma_missing(cache, pr, front, host, i);
        let k = choose|k: int| 0 <= k < some.len() && some[k] == i;
        assert(all[k] == i);
    } else {
        assert(all[some.len() as int] == i);
    }
}

/// A story that is cached answers its thread, as one that was there before, whatever the
/// tracker or a run; without it and without a tracker there is none; a run that failed says
/// why; and a run that reported tells what its report is worth.
pub proof fn a_thread_gets_its_story(
    cache: Map<(u64, Seq<char>), StoryRef>,
    pr: u64,
    thread: Seq<char>,
    host: Option<Seq<char>>,
    run: Run,
    hit: StoryRef,
    entry: Reported,
    why: String,
)
    ensures
        served(cache, pr, thread, host) == Some(hit) ==> thread_outcome(
            cache,
            pr,
            thread,
            host,
            run,
        ) == (Told::Story { id: hit.id_text(), url: hit.url_text(), reused: true }),
        served(cache, pr, thread, host) is None && host is None ==> thread_outcome(
            cache,
            pr,
            thread,
            host,
            run,
        ) is Nothing,
        served(cache, pr, thread, host) is None && host is Some && run == Err::<
            Vec<Reported>,
            String,
        >(why) ==> thread_outcome(cache, pr, thread, host, run) == Told::Nothing(why@),
        served(cache, pr, thread, host) is None && host is Some && run is Ok && report_of(
            run->Ok_0@,
            thread,
        ) == Some(entry) ==> thread_outcome(cache, pr, thread, host, run) == accepted(
            entry,
            host->Some_0,
        ),
        served(cache, pr, thread, host) is None && host is Some && run is Ok && report_of(
            run->Ok_0@,
            thread,
        ) is None ==> thread_outcome(cache, pr, thread, host, run) is Nothing,
{
}

/// The filer is asked about just those threads that no cached story answers, each once and
/// in order, and about none where there is no tracker.
pub proof fn the_filer_is_asked_what_is_missing(
    cache: Map<(u64, Seq<char>), StoryRef>,
    pr: u64,
    wanted: Seq<Wanted>,
    w: Wanted,
    host: Option<Seq<char>>,
)
    ensures
        asked(cache, pr, wanted, None).len() == 0,
        missing(cache, pr, Seq::empty(), host).len() == 0,
        missing(cache, pr, wanted.push(w), host) == if served(cache, pr, w.thread_id@, host) is None {
            missing(cache, pr, wanted, host).push(wanted.len() as int)
        } else {
            missing(cache, pr, wanted, host)
        },
        host is Some ==> asked(cache, pr, wanted, host) == missing(cache, pr, wanted, host),
{
    assert(wanted.push(w).drop_last() =~= wanted);
}

/// What landed is remembered for its own thread and PR, and nothing is remembered of what
/// did not; every other thread's story is what it was.
pub proof fn what_landed_is_remembered(
    cache: Map<(u64, Seq<char>), StoryRef>,
    pr: u64,
    out: Seq<(String, Outcome)>,
    thread: String,
    filed: Filed,
    why: String,
)
    ensures
        remembered(cache, pr, Seq::empty()) == cache,
        remembered(cache, pr, out.push((thread, Ok(filed)))) == remembered(cache, pr, out).insert(
            (pr, thread@),
            filed.story,
        ),
        remembered(cache, pr, out.push((thread, Err(why)))) == remembered(cache, pr, out),
{
    assert(out.push((thread, Ok::<Filed, String>(filed))).drop_last() =~= out);
    assert(out.push((thread, Err::<Filed, String>(why))).drop_last() =~= out);
}

fn outcome_of(cache: &Cache, pr: u64, thread: &str, host: Option<&str>, run: &Run) -> (o: Outcome)
    requires
        cache.wf(),
    ensures
        told(o) == thread_outcome(cache.view(), pr, thread@, opt_str(host), *run),
{
    match cache.get(pr, thread, host) {
        Some(hit) => Ok(Filed { story: hit.clone(), reused: true }),
        None => match host {
            None => Err("no tracker is configured, so no story can be filed".to_owned()),
            Some(h) => match run {
                Err(why) => Err(why.clone()),
                Ok(reported) => match find_report(reported, thread) {
                    Some(r) => accept(r, h),
                    None => Err(
                        "the story run reported nothing for this thread. If it got as far as filing, the next attempt will find that story by its link back to the thread rather than making a second one.".to_owned(),
                    ),
                },
            },
        },
    }
}

/// The cache with the stories of a batch put in, the later of two for one thread last.
pub open spec fn remembered(
    cache: Map<(u64, Seq<char>), StoryRef>,
    pr: u64,
    out: Seq<(String, Outcome)>,
) -> Map<(u64, Seq<char>), StoryRef>
    decreases out.len(),
{
    if out.len() == 0 {
        cache
    } else {
        let front = remembered(cache, pr, out.drop_last());
        match out.last().1 {
            Ok(f) => front.insert((pr, out.last().0@), f.story),
            Err(_) => front,
        }
    }
}

/// File every story a batch needs: each thread of `wanted`, in order, with its story or
/// why there is none. A cached story answers without the filer and without a tracker. A
/// failure belongs to a thread, and the batch goes on. `run` is what the filer came to
/// where there was anything to ask it, and what landed is remembered.
pub fn file_all(
    cache: &mut Cache,
    pr: u64,
    wanted: &Vec<Wanted>,
    host: Option<&str>,
    run: &Run,
) -> (r: Vec<(String, Outcome)>)
    requires
        old(cache).wf(),
    ensures
        final(cache).wf(),
        r@.len() == wanted@.len(),
        forall|i: int|
            0 <= i < wanted@.len() ==> (#[trigger] r@[i]).0 == wanted@[i].thread_id && told(r@[i].1)
                == thread_outcome(
                old(cache).view(),
                pr,
                wanted@[i].thread_id@,
                opt_str(host),
                *run,
            ),
        final(cache).view() == remembered(old(cache).view(), pr, r@),
{
    let mut out: Vec<(String, Outcome)> = Vec::new();
    let mut i: usize = 0;
    while i < wanted.len()
        invariant
            cache.wf(),
            *cache == *old(cache),
            i <= wanted@.len(),
            out@.len() == i,
            forall|k: int|
                0 <= k < i ==> (#[trigger] out@[k]).0 == wanted@[k].thread_id && told(out@[k].1)
                    == thread_outcome(
                    old(cache).view(),
                    pr,
                    wanted@[k].thread_id@,
                    opt_str(host),
                    *run,
                ),
        decreases wanted@.len() - i,
    {
        let o: Outcome = outcome_of(cache, pr, wanted[i].thread_id.as_str(), host, run);
        out.push((wanted[i].thread_id.clone(), o));
        i += 1;
    }
    let mut j: usize = 0;
    while j < out.len()
        invariant
            cache.wf(),
            j <= out@.len(),
            cache.view() == remembered(old(cache).view(), pr, out@.take(j as int)),
        decreases out@.len() - j,
    {
        proof {
            assert(out@.take(j + 1).drop_last() =~= out@.take(j as int));
            assert(out@.take(j + 1).last() == out@[j as int]);
        }
        match &out[j].1 {
            Ok(f) => {
                cache.put(pr, out[j].0.as_str(), f.story.clone());
            },
            Err(_) => {},
        }
        j += 1;
    }
    proof {
        assert(out@.take(j as int) =~= out@);
    }
    out
}

/// A story that landed answers the next attempt: once a batch is filed, no thread that
/// got a story is asked about again.
pub proof fn a_retry_asks_only_for_what_is_missing(
    cache: Map<(u64, Seq<char>), StoryRef>,
    pr: u64,
    wanted: Seq<Wanted>,
    host: Option<Seq<char>>,
    run: Run,
    out: Seq<(String, Outcome)>,
    i: int,
)
    requires
        out.len() == wanted.len(),
        forall|k: int|
            0 <= k < wanted.len() ==> (#[trigger] out[k]).0 == wanted[k].thread_id && told(out[k].1)
                == thread_outcome(cache, pr, wanted[k].thread_id@, host, run),
        0 <= i < wanted.len(),
        told(out[i].1) is Story,
    ensures
        served(remembered(cache, pr, out), pr, wanted[i].thread_id@, host) is Some,
{
    assert forall|k: int| 0 <= k < out.len() && (#[trigger] out[k]).1 is Ok implies servable_story(
        out[k].1->Ok_0.story,
        host,
    ) by {
        assert(told(out[k].1) is Story);
    }
    lemma_landed(cache, pr, out, host, i);
}

proof fn lemma_landed(
    cache: Map<(u64, Seq<char>), StoryRef>,
    pr: u64,
    out: Seq<(String, Outcome)>,
    host: Option<Seq<char>>,
    i: int,
)
    requires
        forall|k: int|
            0 <= k < out.len() && (#[trigger] out[k]).1 is Ok ==> servable_story(
                out[k].1->Ok_0.story,
                host,
            ),
        0 <= i < out.len(),
        out[i].1 is Ok,
    ensures
        served(remembered(cache, pr, out), pr, out[i].0@, host) is Some,
    decreases out.len(),
{
    let front = out.drop_last();
    let n = out.len() - 1;
    if i < n {
        assert forall|k: int|
            0 <= k < front.len() && (#[trigger] front[k]).1 is Ok implies servable_story(
            front[k].1->Ok_0.story,
            host,
        ) by {
            assert(front[k] == out[k]);
        }
        lemma_landed(cache, pr, front, host, i);
        assert(front[i] == out[i]);
    }
    assert(out.last() == out[n]);
}

// ---------------------------------------------------------------------------
// The run
// ---------------------------------------------------------------------------

/// Why the filer does not run, if it does not.
pub open spec fn filer_refusal(
    tracker: bool,
    pr: u64,
    head_ref: Option<Seq<char>>,
    workspace: bool,
    path: bool,
) -> Option<Said> {
    if !tracker {
        Some(Said::Failed("no tracker configured, so there is nothing to file into"@))
    } else {
        match head_ref {
            None => Some(
                Said::Failed("PR #"@ + decimal(pr as nat) + " is not in the current poll"@),
            ),
            Some(head) => if !workspace {
                Some(Said::Failed("no worktree holding "@ + head))
            } else if !path {
                Some(Said::Failed("the worktree vanished"@))
            } else {
                None
            },
        }
    }
}

/// Whether the filer can run: there is a tracker, the PR is known, and a worktree holds
/// its branch and stands.
pub fn filer_may_run(
    tracker: bool,
    pr: u64,
    head_ref: Option<&str>,
    workspace: bool,
    path: bool,
) -> (r: Result<(), ApiError>)
    ensures
        match filer_refusal(tracker, pr, opt_str(head_ref), workspace, path) {
            None => r is Ok,
            Some(why) => r is Err && r->Err_0@ == why,
        },
{
    if !tracker {
        return Err(
            refuse("no tracker configured, so there is nothing to file into".to_owned()),
        );
    }
    match head_ref {
        None => {
            let n: String = number(pr);
            Err(refuse(cat3("PR #", n.as_str(), " is not in the current poll")))
        },
        Some(head) => if !workspace {
            Err(refuse(cat2("no worktree holding ", head)))
        } else if !path {
            Err(refuse("the worktree vanished".to_owned()))
        } else {
            Ok(())
        },
    }
}

/// The filer runs exactly where there is a tracker, its PR was polled, and the worktree that
/// holds its branch is known and stands.
pub proof fn the_filer_runs_wherever_it_can(
    tracker: bool,
    pr: u64,
    head_ref: Option<Seq<char>>,
    workspace: bool,
    path: bool,
)
    ensures
        filer_refusal(tracker, pr, head_ref, workspace, path) is None <==> tracker && head_ref
            is Some && workspace && path,
{
}

/// The steps of a filer's run.
#[derive(Debug, Clone, Copy, PartialEq, Eq, Structural)]
pub enum FilerStep {
    /// See that it can run.
    Check,
    /// Clear the report of the run before, so that it is never read as this one's.
    ClearReport,
    WriteStories,
    /// Write the stub server's configuration.
    WriteStub,
    ReadEnvironment,
    /// See that the tracker's token is there.
    CheckToken,
    Start,
    /// Wait until it exits, or its time is up.
    Wait,
    Kill,
    /// See whether it left the worktree as it was, which ends nothing.
    CheckTree,
    ReadReport,
}

/// What a filer's run is like: with a stub tracker, with a token to look for, and
/// whether its time ran out.
#[derive(Debug, Clone, Copy, PartialEq, Eq, Structural)]
pub struct FilerKind {
    pub stub: bool,
    pub token: bool,
    pub timed_out: bool,
}

/// What follows a step of a filer's run.
pub open spec fn filer_after(last: Option<FilerStep>, ok: bool, k: FilerKind) -> Option<FilerStep> {
    match last {
        None => Some(FilerStep::Check),
        Some(FilerStep::ClearReport) => Some(FilerStep::WriteStories),
        Some(FilerStep::Wait) => if k.timed_out {
            Some(FilerStep::Kill)
        } else {
            Some(FilerStep::CheckTree)
        },
        Some(FilerStep::Kill) => Some(FilerStep::CheckTree),
        Some(FilerStep::CheckTree) => Some(FilerStep::ReadReport),
        Some(FilerStep::ReadReport) => None,
        Some(step) => if !ok {
            None
        } else {
            match step {
                FilerStep::Check => Some(FilerStep::ClearReport),
                FilerStep::WriteStories => if k.stub {
                    Some(FilerStep::WriteStub)
                } else {
                    Some(FilerStep::ReadEnvironment)
                },
                FilerStep::WriteStub => Some(FilerStep::ReadEnvironment),
                FilerStep::ReadEnvironment => if k.token {
                    Some(FilerStep::CheckToken)
                } else {
                    Some(FilerStep::Start)
                },
                FilerStep::CheckToken => Some(FilerStep::Start),
                _ => Some(FilerStep::Wait),
            }
        },
    }
}

/// The next step of a filer's run, after `last` went well or did not.
pub fn run_filer(last: Option<FilerStep>, ok: bool, k: FilerKind) -> (r: Option<FilerStep>)
    ensures
        r == filer_after(last, ok, k),
{
    match last {
        None => Some(FilerStep::Check),
        Some(FilerStep::ClearReport) => Some(FilerStep::WriteStories),
        Some(FilerStep::Wait) => if k.timed_out {
            Some(FilerStep::Kill)
        } else {
            Some(FilerStep::CheckTree)
        },
        Some(FilerStep::Kill) => Some(FilerStep::CheckTree),
        Some(FilerStep::CheckTree) => Some(FilerStep::ReadReport),
        Some(FilerStep::ReadReport) => None,
        Some(step) => if !ok {
            None
        } else {
            match step {
                FilerStep::Check => Some(FilerStep::ClearReport),
                FilerStep::WriteStories => if k.stub {
                    Some(FilerStep::WriteStub)
                } else {
                    Some(FilerStep::ReadEnvironment)
                },
                FilerStep::WriteStub => Some(FilerStep::ReadEnvironment),
                FilerStep::ReadEnvironment => if k.token {
                    Some(FilerStep::CheckToken)
                } else {
                    Some(FilerStep::Start)
                },
                FilerStep::CheckToken => Some(FilerStep::Start),
                _ => Some(FilerStep::Wait),
            }
        },
    }
}

/// A filer's run that went this far, each step with its outcome and what was known when
/// it was chosen.
pub open spec fn is_filer_run(steps: Seq<(FilerStep, bool, FilerKind)>) -> bool {
    forall|i: int|
        0 <= i < steps.len() ==> Some((#[trigger] steps[i]).0) == filer_after(
            if i == 0 {
                None
            } else {
                Some(steps[i - 1].0)
            },
            i > 0 && steps[i - 1].1,
            steps[i].2,
        )
}

/// No report is read that was there before: the one of an earlier run was cleared before
/// this run started. And no report is read of a run that is still going: it exited, or
/// was killed.
pub proof fn a_report_is_this_runs_own(steps: Seq<(FilerStep, bool, FilerKind)>, i: int)
    requires
        is_filer_run(steps),
        0 <= i < steps.len(),
        steps[i].0 == FilerStep::ReadReport,
    ensures
        exists|j: int| 0 <= j < i && (#[trigger] steps[j]).0 == FilerStep::ClearReport,
        exists|j: int| 0 <= j < i && (#[trigger] steps[j]).0 == FilerStep::Wait,
{
    lemma_filer_run(steps, i);
}

/// A run of the filer that could start is waited for, killed exactly where its time ran out,
/// and looked at and read in the end, whatever came before.
pub proof fn a_started_filer_is_read_in_the_end(
    steps: Seq<(FilerStep, bool, FilerKind)>,
    k: FilerKind,
    i: int,
)
    requires
        is_filer_run(steps),
        0 <= i < steps.len(),
        steps[i].0 == FilerStep::Start,
        steps[i].1,
        filer_after(Some(steps.last().0), steps.last().1, k) is None,
    ensures
        i + 3 < steps.len(),
        steps[i + 1].0 == FilerStep::Wait,
        steps[i + 2].2.timed_out ==> steps.len() == i + 5 && steps[i + 2].0 == FilerStep::Kill
            && steps[i + 3].0 == FilerStep::CheckTree && steps[i + 4].0 == FilerStep::ReadReport,
        !steps[i + 2].2.timed_out ==> steps.len() == i + 4 && steps[i + 2].0
            == FilerStep::CheckTree && steps[i + 3].0 == FilerStep::ReadReport,
{
    let n = steps.len() as int;
    if n > i + 1 {
        assert(Some(steps[i + 1].0) == filer_after(Some(steps[i].0), steps[i].1, steps[i + 1].2));
    }
    if n > i + 2 {
        assert(Some(steps[i + 2].0) == filer_after(
            Some(steps[i + 1].0),
            steps[i + 1].1,
            steps[i + 2].2,
        ));
    }
    if n > i + 3 {
        assert(Some(steps[i + 3].0) == filer_after(
            Some(steps[i + 2].0),
            steps[i + 2].1,
            steps[i + 3].2,
        ));
    }
    if n > i + 4 {
        assert(Some(steps[i + 4].0) == filer_after(
            Some(steps[i + 3].0),
            steps[i + 3].1,
            steps[i + 4].2,
        ));
    }
    if n > i + 5 {
        assert(Some(steps[i + 5].0) == filer_after(
            Some(steps[i + 4].0),
            steps[i + 4].1,
            steps[i + 5].2,
        ));
    }
    assert(steps.last() == steps[n - 1]);
}

/// A run of the filer that nothing fails starts: its report is cleared and its stories are
/// written before, the stub's configuration and the token are seen to exactly where there is
/// a stub and a token to look for, and a check that failed ends it before it touched anything.
pub proof fn a_filer_starts_unless_something_fails(
    steps: Seq<(FilerStep, bool, FilerKind)>,
    k: FilerKind,
    stub: bool,
    token: bool,
)
    requires
        is_filer_run(steps),
        steps.len() > 0,
        filer_after(Some(steps.last().0), steps.last().1, k) is None,
        forall|i: int|
            0 <= i < steps.len() ==> (#[trigger] steps[i]).2.stub == stub && steps[i].2.token
                == token,
    ensures
        !steps[0].1 ==> steps.len() == 1 && steps[0].0 == FilerStep::Check,
        (forall|i: int| 0 <= i < steps.len() ==> (#[trigger] steps[i]).1) ==> {
            let a: int = if stub {
                1
            } else {
                0
            };
            let b: int = a + if token {
                1int
            } else {
                0
            };
            &&& steps.len() > 4 + b
            &&& steps[1].0 == FilerStep::ClearReport
            &&& steps[2].0 == FilerStep::WriteStories
            &&& stub ==> steps[3].0 == FilerStep::WriteStub
            &&& steps[3 + a].0 == FilerStep::ReadEnvironment
            &&& token ==> steps[4 + a].0 == FilerStep::CheckToken
            &&& steps[4 + b].0 == FilerStep::Start
        },
{
    let n = steps.len() as int;
    assert(Some(steps[0].0) == filer_after(None, false, steps[0].2));
    assert(steps.last() == steps[n - 1]);
    if n > 1 {
        assert(Some(steps[1].0) == filer_after(Some(steps[0].0), steps[0].1, steps[1].2));
    }
    if n > 2 {
        assert(Some(steps[2].0) == filer_after(Some(steps[1].0), steps[1].1, steps[2].2));
    }
    if n > 3 {
        assert(Some(steps[3].0) == filer_after(Some(steps[2].0), steps[2].1, steps[3].2));
    }
    if n > 4 {
        assert(Some(steps[4].0) == filer_after(Some(steps[3].0), steps[3].1, steps[4].2));
    }
    if n > 5 {
        assert(Some(steps[5].0) == filer_after(Some(steps[4].0), steps[4].1, steps[5].2));
    }
    if n > 6 {
        assert(Some(steps[6].0) == filer_after(Some(steps[5].0), steps[5].1, steps[6].2));
    }
    if forall|i: int| 0 <= i < steps.len() ==> (#[trigger] steps[i]).1 {
        assert(steps[0].1);
        assert(n > 1);
        assert(steps[1].1);
        assert(n > 2);
        assert(steps[2].1);
        assert(n > 3);
        assert(steps[3].1);
        assert(n > 4);
        assert(steps[4].1);
        if n > 5 {
            assert(steps[5].1);
        }
        if n > 6 {
            assert(steps[6].1);
        }
    }
}

spec fn stage_of(s: FilerStep) -> int {
    match s {
        FilerStep::Check => 0,
        FilerStep::ClearReport => 1,
        FilerStep::WriteStories => 2,
        FilerStep::WriteStub => 3,
        FilerStep::ReadEnvironment => 4,
        FilerStep::CheckToken => 5,
        FilerStep::Start => 6,
        FilerStep::Wait => 7,
        FilerStep::Kill => 8,
        FilerStep::CheckTree => 9,
        FilerStep::ReadReport => 10,
    }
}

proof fn lemma_filer_run(steps: Seq<(FilerStep, bool, FilerKind)>, i: int)
    requires
        is_filer_run(steps),
        0 <= i < steps.len(),
    ensures
        stage_of(steps[i].0) > 1 ==> exists|j: int|
            0 <= j < i && (#[trigger] steps[j]).0 == FilerStep::ClearReport,
        stage_of(steps[i].0) > 7 ==> exists|j: int|
            0 <= j < i && (#[trigger] steps[j]).0 == FilerStep::Wait,
    decreases i,
{
    if i > 0 {
        lemma_filer_run(steps, i - 1);
        let before = steps[i - 1].0;
        assert(Some(steps[i].0) == filer_after(Some(before), steps[i - 1].1, steps[i].2));
        if stage_of(steps[i].0) > 1 && stage_of(before) <= 1 {
            assert(steps[i - 1].0 == FilerStep::ClearReport);
        }
        if stage_of(steps[i].0) > 7 && stage_of(before) <= 7 {
            assert(steps[i - 1].0 == FilerStep::Wait);
        }
        if stage_of(before) > 1 {
            let j = choose|j: int|
                0 <= j < i - 1 && (#[trigger] steps[j]).0 == FilerStep::ClearReport;
            assert(0 <= j < i && steps[j].0 == FilerStep::ClearReport);
        }
        if stage_of(before) > 7 {
            let j = choose|j: int| 0 <= j < i - 1 && (#[trigger] steps[j]).0 == FilerStep::Wait;
            assert(0 <= j < i && steps[j].0 == FilerStep::Wait);
        }
    }
}

/// The body of a story as it is filed: the text approved, and the line that links back.
pub open spec fn filed_body(w: Wanted, pr: u64) -> Seq<char> {
    without_trailing(w.draft.body@) + "\n\n"@ + source_text(pr, w.permalink@)
}

/// One row of the file the agent reads.
pub open spec fn draft_row(w: Wanted, pr: u64) -> Seq<(Seq<char>, Seq<char>)> {
    seq![
        ("thread_id"@, w.thread_id@),
        ("title"@, w.draft.title@),
        ("body"@, filed_body(w, pr)),
    ]
}

pub open spec fn draft_rows(wanted: Seq<Wanted>, pr: u64) -> Seq<Seq<(Seq<char>, Seq<char>)>> {
    wanted.map_values(|w: Wanted| draft_row(w, pr))
}

/// The texts of a list of rows.
pub open spec fn rows_text(rows: Seq<Vec<(String, String)>>) -> Seq<Seq<(Seq<char>, Seq<char>)>> {
    rows.map_values(|r: Vec<(String, String)>| pairs(r@))
}

/// What the agent is asked to file, one row for each thread.
pub fn drafts(wanted: &Vec<Wanted>, pr: u64) -> (r: Vec<Vec<(String, String)>>)
    ensures
        rows_text(r@) == draft_rows(wanted@, pr),
{
    let mut out: Vec<Vec<(String, String)>> = Vec::new();
    let mut i: usize = 0;
    while i < wanted.len()
        invariant
            i <= wanted@.len(),
            out@.len() == i,
            forall|k: int| 0 <= k < i ==> pairs((#[trigger] out@[k])@) == draft_row(wanted@[k], pr),
        decreases wanted@.len() - i,
    {
        let w: &Wanted = &wanted[i];
        let text: String = trim_end(w.draft.body.as_str());
        let line: String = source_line(pr, w.permalink.as_str());
        let body: String = cat3(text.as_str(), "\n\n", line.as_str());
        let mut row: Vec<(String, String)> = Vec::new();
        row.push(("thread_id".to_owned(), w.thread_id.clone()));
        row.push(("title".to_owned(), w.draft.title.clone()));
        row.push(("body".to_owned(), body));
        proof {
            assert(pairs(row@) =~= draft_row(*w, pr));
        }
        out.push(row);
        i += 1;
    }
    proof {
        assert(rows_text(out@) =~= draft_rows(wanted@, pr));
    }
    out
}

/// Every story carries the thread's own link, and ends with it: that is what a later
/// run finds it by.
pub proof fn every_story_links_back(w: Wanted, pr: u64)
    ensures
        w.permalink@.is_suffix_of(filed_body(w, pr)),
{
    let body = filed_body(w, pr);
    let n = body.len() as int;
    assert(body.subrange(n - w.permalink@.len(), n) =~= w.permalink@);
}

/// Whether no name occurs twice in a row.
pub open spec fn names_apart(row: Seq<(Seq<char>, Seq<char>)>) -> bool {
    forall|i: int, j: int| 0 <= i < j < row.len() ==> row[i].0 != row[j].0
}

/// The JSON text of a list of objects whose values are strings.
pub uninterp spec fn pretty_json(rows: Seq<Seq<(Seq<char>, Seq<char>)>>) -> Seq<char>;

/// `serde_json::Error`, which is never looked into.
#[verifier::external_type_specification]
#[verifier::external_body]
pub struct ExJsonError(serde_json::Error);

/// `serde_json::to_string_pretty` of a list of objects, one for each row, with the row's
/// names and values as their strings. No name occurs twice in a row, so each pair is one
/// member of its object; the members stand in the order of their names. The text depends
/// on the rows alone. It fails only on a value that refuses to be written or on a key that
/// is no string, and there is neither.
#[verifier::external_body]
fn to_pretty_json(rows: &Vec<Vec<(String, String)>>) -> (r: Result<String, serde_json::Error>)
    requires
        forall|i: int| 0 <= i < rows@.len() ==> names_apart(#[trigger] rows_text(rows@)[i]),
    ensures
        r is Ok,
        r->Ok_0@ == pretty_json(rows_text(rows@)),
{
    let objects: Vec<std::collections::BTreeMap<&str, &str>> = rows.iter()
        .map(|row| row.iter().map(|p| (p.0.as_str(), p.1.as_str())).collect())
        .collect();
    serde_json::to_string_pretty(&objects)
}

/// The file the agent reads what to file from.
pub fn stories_file(wanted: &Vec<Wanted>, pr: u64) -> (r: Result<String, ApiError>)
    ensures
        r is Ok,
        r->Ok_0@ == pretty_json(draft_rows(wanted@, pr)),
{
    let rows: Vec<Vec<(String, String)>> = drafts(wanted, pr);
    proof {
        reveal_strlit("thread_id");
        reveal_strlit("title");
        reveal_strlit("body");
        assert forall|i: int| 0 <= i < rows@.len() implies names_apart(
            #[trigger] rows_text(rows@)[i],
        ) by {
            assert(rows_text(rows@).len() == draft_rows(wanted@, pr).len());
            let row = draft_row(wanted@[i], pr);
            assert(rows_text(rows@)[i] == row);
            assert(row.len() == 3);
            assert(row[0].0.len() == 9 && row[1].0.len() == 5 && row[2].0.len() == 4);
            assert forall|a: int, b: int| 0 <= a < b < row.len() implies row[a].0 != row[b].0 by {
                assert(row[a].0.len() != row[b].0.len());
            }
        }
    }
    match to_pretty_json(&rows) {
        Ok(t) => Ok(t),
        Err(_) => Err(refuse("the stories could not be written down".to_owned())),
    }
}

/// The folder the filer works in, under the daemon's own.
pub fn scratch_name(pr: u64) -> (r: String)
    ensures
        r@ == "story-"@ + decimal(pr as nat),
{
    let n: String = number(pr);
    cat2("story-", n.as_str())
}

/// The file that the stories are written to.
pub open spec fn stories_path(scratch: Seq<char>) -> Seq<char> {
    inside(scratch, "stories.json"@)
}

/// The file that the report is read from.
pub open spec fn report_path(scratch: Seq<char>) -> Seq<char> {
    inside(scratch, "report.json"@)
}

/// The file that the stories are written to, and the one that the report is read from.
pub fn filer_files(scratch: &str) -> (r: (String, String))
    ensures
        r.0@ == stories_path(scratch@),
        r.1@ == report_path(scratch@),
{
    (path_in(scratch, "stories.json"), path_in(scratch, "report.json"))
}

/// What the filer was asked is never read back as what it reported: the two are files of
/// their own.
pub proof fn a_report_is_not_the_stories(scratch: Seq<char>)
    ensures
        stories_path(scratch) != report_path(scratch),
{
    reveal_strlit("stories.json");
    reveal_strlit("report.json");
    assert(stories_path(scratch).len() != report_path(scratch).len());
}

/// What a stub tracker's server is, where the tracker is a stub: its name, how it is
/// spoken to, and the program with its arguments.
pub struct StubServer {
    pub name: &'static str,
    pub kind: &'static str,
    pub command: &'static str,
    pub args: Vec<String>,
}

/// The stub tracker's server, or the refusal where its script is not there: `script` is
/// where that is, and `log` the file that the stub writes its calls to.
pub fn stub_server(script: &str, present: bool, log: &str) -> (r: Result<StubServer, ApiError>)
    ensures
        if present {
            r is Ok && r->Ok_0.name@ == "shortcut"@ && r->Ok_0.kind@ == "stdio"@
                && r->Ok_0.command@ == "python3"@ && texts(r->Ok_0.args@) == seq![
                script@,
                "--log"@,
                log@,
            ]
        } else {
            r is Err && r->Err_0@ == Said::Failed(
                "tracker is `stub` but "@ + script@ + " is missing"@,
            )
        },
{
    if !present {
        return Err(refuse(cat3("tracker is `stub` but ", script, " is missing")));
    }
    let mut args: Vec<String> = Vec::new();
    args.push(script.to_owned());
    args.push("--log".to_owned());
    args.push(log.to_owned());
    proof {
        assert(texts(args@) =~= seq![script@, "--log"@, log@]);
    }
    Ok(StubServer { name: "shortcut", kind: "stdio", command: "python3", args })
}

/// The filer's arguments: the skill typed, a report as it goes, and nothing but the
/// tracker's server, reading and writing allowed, the scratch folder beside the
/// worktree.
pub open spec fn filer_args(
    agent: Seq<char>,
    pr: u64,
    id: SessionId,
    mcp_server: Seq<char>,
    scratch: Seq<char>,
) -> Seq<Seq<char>> {
    seq![
        agent,
        "-p"@,
        "/orchd:"@ + Pass::STORY@ + " "@ + decimal(pr as nat),
        "--output-format"@,
        "stream-json"@,
        "--verbose"@,
        "--session-id"@,
        hyphenated(id),
        "--allowedTools"@,
        "mcp__"@ + mcp_server + " Read Write"@,
        "--add-dir"@,
        scratch,
    ]
}

/// What is added for a stub tracker: only its server, and no other that is configured.
pub open spec fn stub_args(stub: Option<Seq<char>>) -> Seq<Seq<char>> {
    match stub {
        Some(path) => seq!["--mcp-config"@, path, "--strict-mcp-config"@],
        None => Seq::empty(),
    }
}

pub fn filer_command(
    agent: &str,
    pr: u64,
    id: SessionId,
    mcp_server: &str,
    scratch: &str,
    flags: &Vec<String>,
    stub: Option<&str>,
) -> (r: Vec<String>)
    ensures
        texts(r@) == filer_args(agent@, pr, id, mcp_server@, scratch@) + texts(flags@) + stub_args(
            opt_str(stub),
        ),
{
    let n: String = number(pr);
    let mut cmd: Vec<String> = Vec::new();
    cmd.push(agent.to_owned());
    cmd.push("-p".to_owned());
    cmd.push(cat4("/orchd:", Pass::STORY, " ", n.as_str()));
    cmd.push("--output-format".to_owned());
    cmd.push("stream-json".to_owned());
    cmd.push("--verbose".to_owned());
    cmd.push("--session-id".to_owned());
    cmd.push(session_text(id));
    cmd.push("--allowedTools".to_owned());
    cmd.push(cat3("mcp__", mcp_server, " Read Write"));
    cmd.push("--add-dir".to_owned());
    cmd.push(scratch.to_owned());
    let ghost head = texts(cmd@);
    proof {
        assert(head =~= filer_args(agent@, pr, id, mcp_server@, scratch@));
    }
    let mut tail: Vec<String> = copies(flags);
    let ghost c0 = cmd@;
    cmd.append(&mut tail);
    proof {
        assert(texts(cmd@) =~= texts(c0) + texts(flags@));
    }
    let ghost mid = texts(cmd@);
    match stub {
        Some(path) => {
            cmd.push("--mcp-config".to_owned());
            cmd.push(path.to_owned());
            cmd.push("--strict-mcp-config".to_owned());
        },
        None => {},
    }
    proof {
        assert(texts(cmd@) =~= mid + stub_args(opt_str(stub)));
    }
    cmd
}

/// The names the filer's instructions read their values under.
pub struct StoryVars {
    pub stories: String,
    pub report: String,
    pub tracker_host: String,
}

/// What the filer is handed beyond a session's own environment.
pub fn filer_env(vars: &StoryVars, stories: &str, report: &str, host: &str) -> (r: Vec<
    (String, String),
>)
    ensures
        pairs(r@) == seq![
            (vars.stories@, stories@),
            (vars.report@, report@),
            (vars.tracker_host@, host@),
        ],
{
    let mut env: Vec<(String, String)> = Vec::new();
    env.push((vars.stories.clone(), stories.to_owned()));
    env.push((vars.report.clone(), report.to_owned()));
    env.push((vars.tracker_host.clone(), host.to_owned()));
    proof {
        assert(pairs(env@) =~= seq![
            (vars.stories@, stories@),
            (vars.report@, report@),
            (vars.tracker_host@, host@),
        ]);
    }
    env
}

/// Where a filer works, and what it files into.
pub struct FilerPlace {
    /// The worktree that holds the PR's branch, and where that is.
    pub workspace: String,
    pub path: String,
    /// The folder the stories and the report go into.
    pub scratch: String,
    /// The tracker's server, its host, and the stub's configuration where it is one.
    pub mcp_server: String,
    pub host: String,
    pub stub: Option<String>,
}

/// What the filer is started with: its command, the record of a run over the PR, and a
/// session's own environment with what the filer needs beyond that. It asks nothing and
/// posts nothing, so it is handed neither credential.
pub fn filer_launch(
    agent: &str,
    pr: u64,
    id: SessionId,
    place: &FilerPlace,
    flags: &Vec<String>,
    vars: &StoryVars,
    session_env: Environment,
    now: Moment,
    token: String,
) -> (r: Launch)
    ensures
        texts(r.command@) == filer_args(agent@, pr, id, place.mcp_server@, place.scratch@) + texts(
            flags@,
        ) + stub_args(opt_text(place.stub)),
        r.record.pass is Some,
        r.record.pass->Some_0.pr == pr,
        r.record.pass->Some_0.command@ == Pass::STORY@,
        is_new(r.record, id, place.workspace@, place.path@, r.record.pass, now, token),
        pairs(r.env@) == pairs(session_env.0@) + seq![
            (vars.stories@, stories_path(place.scratch@)),
            (vars.report@, report_path(place.scratch@)),
            (vars.tracker_host@, place.host@),
        ],
        r.unset == session_env.1,
{
    let command: Vec<String> = filer_command(
        agent,
        pr,
        id,
        place.mcp_server.as_str(),
        place.scratch.as_str(),
        flags,
        as_deref(&place.stub),
    );
    let record: Session = Session::new(
        id,
        place.workspace.clone(),
        place.path.clone(),
        Some(Pass { pr, command: Pass::STORY.to_owned() }),
        now,
        token,
    );
    let (stories, report) = filer_files(place.scratch.as_str());
    let extra: Vec<(String, String)> = filer_env(
        vars,
        stories.as_str(),
        report.as_str(),
        place.host.as_str(),
    );
    let (env, unset) = run_env(session_env, None, &extra);
    proof {
        assert(pairs(session_env.0@) + Seq::empty() =~= pairs(session_env.0@));
    }
    Launch { command, record, env, unset }
}

/// What a run that left no report is told as: a story may or may not exist, so each says
/// what the next attempt does.
pub open spec fn unreported_text(timed_out: bool, seconds: u64) -> Seq<char> {
    if timed_out {
        "the story run was killed after "@ + decimal(seconds as nat)
            + "s without reporting. If it got as far as filing, the next attempt finds that story by its link back to the thread."@
    } else {
        "the story run exited without writing its report. Its session is in the rail; a retry searches the tracker first, so it will not file twice."@
    }
}

fn unreported(timed_out: bool, seconds: u64) -> (r: String)
    ensures
        r@ == unreported_text(timed_out, seconds),
{
    if timed_out {
        let n: String = number(seconds);
        cat3(
            "the story run was killed after ",
            n.as_str(),
            "s without reporting. If it got as far as filing, the next attempt finds that story by its link back to the thread.",
        )
    } else {
        "the story run exited without writing its report. Its session is in the rail; a retry searches the tracker first, so it will not file twice.".to_owned()
    }
}

/// What was read of a run.
pub enum Report {
    /// A step before the report failed, for this reason.
    Failed(String),
    /// There is no report to read.
    Unread,
    /// There is one, and it is no report, for this reason.
    Unparseable(String),
    Read(Vec<Reported>),
}

/// What a run came to, given what was read of it: the report, or why there is none.
pub open spec fn is_run(
    read: Report,
    timed_out: bool,
    seconds: u64,
    file: Seq<char>,
    r: Run,
) -> bool {
    match read {
        Report::Failed(why) => r is Err && r->Err_0@ == why@,
        Report::Unread => r is Err && r->Err_0@ == unreported_text(timed_out, seconds),
        Report::Unparseable(why) => r is Err && r->Err_0@
            == "the story run wrote something unparseable to "@ + file + ": "@ + why@,
        Report::Read(list) => r == Ok::<Vec<Reported>, String>(list),
    }
}

/// What a run came to, given what was read of it. `timed_out` is whether its time ran out,
/// which was `seconds`, and `file` how the report's file is shown. A report that was
/// written in time counts although the run was killed after it.
pub fn filer_report(read: Report, timed_out: bool, seconds: u64, file: &str) -> (r: Run)
    ensures
        is_run(read, timed_out, seconds, file@, r),
{
    match read {
        Report::Failed(why) => Err(why),
        Report::Unread => Err(unreported(timed_out, seconds)),
        Report::Unparseable(why) => Err(
            cat4("the story run wrote something unparseable to ", file, ": ", why.as_str()),
        ),
        Report::Read(list) => Ok(list),
    }
}

/// Of a run that was killed before it reported nothing is remembered, and every thread that
/// asked is told that it was killed and what the next attempt does: so the next attempt
/// asks again.
pub proof fn a_killed_run_leaves_no_trace(
    cache: Map<(u64, Seq<char>), StoryRef>,
    pr: u64,
    wanted: Seq<Wanted>,
    host: Option<Seq<char>>,
    seconds: u64,
    file: Seq<char>,
    run: Run,
    out: Seq<(String, Outcome)>,
    i: int,
)
    requires
        is_run(Report::Unread, true, seconds, file, run),
        out.len() == wanted.len(),
        forall|k: int|
            0 <= k < wanted.len() ==> (#[trigger] out[k]).0 == wanted[k].thread_id && told(out[k].1)
                == thread_outcome(cache, pr, wanted[k].thread_id@, host, run),
        0 <= i < wanted.len(),
        host is Some,
        served(cache, pr, wanted[i].thread_id@, host) is None,
    ensures
        told(out[i].1) == Told::Nothing(unreported_text(true, seconds)),
        served(remembered(cache, pr, out), pr, wanted[i].thread_id@, host) is None,
{
    assert(out[i].0 == wanted[i].thread_id);
    assert forall|k: int| 0 <= k < out.len() && (#[trigger] out[k]).0@ == out[i].0@ implies out[k].1
        is Err by {
        assert(out[k].0 == wanted[k].thread_id);
    }
    lemma_not_remembered(cache, pr, out, out[i].0@, host);
}

proof fn lemma_not_remembered(
    cache: Map<(u64, Seq<char>), StoryRef>,
    pr: u64,
    out: Seq<(String, Outcome)>,
    thread: Seq<char>,
    host: Option<Seq<char>>,
)
    requires
        forall|k: int|
            0 <= k < out.len() && (#[trigger] out[k]).0@ == thread ==> out[k].1 is Err,
    ensures
        served(remembered(cache, pr, out), pr, thread, host) == served(cache, pr, thread, host),
    decreases out.len(),
{
    if out.len() > 0 {
        let front = out.drop_last();
        assert forall|k: int|
            0 <= k < front.len() && (#[trigger] front[k]).0@ == thread implies front[k].1 is Err by {
            assert(front[k] == out[k]);
        }
        lemma_not_remembered(cache, pr, front, thread, host);
        assert(out.last() == out[out.len() - 1]);
    }
}

/// A report that was read counts, although the run was killed after it, and nothing else is
/// taken for a report: each other end of a run says why there is none.
pub proof fn a_report_that_was_read_counts(
    list: Vec<Reported>,
    why: String,
    timed_out: bool,
    seconds: u64,
    file: Seq<char>,
    r: Run,
)
    ensures
        is_run(Report::Read(list), timed_out, seconds, file, r) ==> r == Ok::<Vec<Reported>, String>(
            list,
        ),
        is_run(Report::Failed(why), timed_out, seconds, file, r) ==> r is Err && r->Err_0@ == why@,
        is_run(Report::Unread, timed_out, seconds, file, r) ==> r is Err,
        is_run(Report::Unparseable(why), timed_out, seconds, file, r) ==> r is Err
            && why@.is_suffix_of(r->Err_0@),
{
    if is_run(Report::Unparseable(why), timed_out, seconds, file, r) {
        let e = r->Err_0@;
        assert(e.subrange(e.len() - why@.len(), e.len() as int) =~= why@);
    }
}

/// A story is filed under the title and with the text that were approved, for its own
/// thread.
pub proof fn a_story_is_filed_as_it_was_approved(w: Wanted, pr: u64)
    ensures
        draft_row(w, pr).contains(("thread_id"@, w.thread_id@)),
        draft_row(w, pr).contains(("title"@, w.draft.title@)),
        draft_row(w, pr).contains(("body"@, filed_body(w, pr))),
        without_trailing(w.draft.body@).is_prefix_of(filed_body(w, pr)),
        w.permalink@.is_suffix_of(filed_body(w, pr)),
{
    let row = draft_row(w, pr);
    assert(row[0] == ("thread_id"@, w.thread_id@) && row[1] == ("title"@, w.draft.title@) && row[2]
        == ("body"@, filed_body(w, pr)));
    let (body, text) = (filed_body(w, pr), without_trailing(w.draft.body@));
    assert(body.subrange(0, text.len() as int) =~= text);
    assert(body.subrange(body.len() - w.permalink@.len(), body.len() as int) =~= w.permalink@);
}

/// With a stub tracker only the stub's server is configured, and no other; without one
/// nothing is.
pub proof fn a_stub_is_the_only_server(path: Seq<char>)
    ensures
        stub_args(None).len() == 0,
        stub_args(Some(path)).contains(path),
        stub_args(Some(path)).contains("--strict-mcp-config"@),
        stub_args(Some(path))[0] == "--mcp-config"@ && stub_args(Some(path))[1] == path,
{
    let a = stub_args(Some(path));
    assert(a[1] == path && a[2] == "--strict-mcp-config"@);
}

/// The filer is sent the story command for its PR, under its own session, and may use nothing
/// but the tracker, reading and writing; it works beside its scratch folder.
pub proof fn the_filer_is_sent_for_its_pr(
    agent: Seq<char>,
    pr: u64,
    id: SessionId,
    mcp_server: Seq<char>,
    scratch: Seq<char>,
    i: int,
)
    ensures
        ({
            let args = filer_args(agent, pr, id, mcp_server, scratch);
            &&& args[0] == agent
            &&& args.contains("/orchd:story "@ + decimal(pr as nat))
            &&& 0 <= i < args.len() && args[i] == "-p"@ && i == 1 ==> args[i + 1]
                == "/orchd:story "@ + decimal(pr as nat)
            &&& args[1] == "-p"@
            &&& args[3] == "--output-format"@ && args[4] == "stream-json"@
            &&& args[5] == "--verbose"@
            &&& args[6] == "--session-id"@ && args[7] == hyphenated(id)
            &&& args[8] == "--allowedTools"@ && args[9] == "mcp__"@ + mcp_server + " Read Write"@
            &&& args[10] == "--add-dir"@ && args[11] == scratch
            &&& args.len() == 12
        }),
{
    reveal_strlit("/orchd:story ");
    reveal_strlit("/orchd:");
    reveal_strlit("story");
    reveal_strlit(" ");
    let args = filer_args(agent, pr, id, mcp_server, scratch);
    assert(args[2] =~= "/orchd:story "@ + decimal(pr as nat));
}

/// Every story that is asked for has a row of its own, with its thread, its title and its text.
pub proof fn every_story_has_its_row(wanted: Seq<Wanted>, pr: u64, i: int)
    ensures
        draft_rows(wanted, pr).len() == wanted.len(),
        0 <= i < wanted.len() ==> draft_rows(wanted, pr)[i].contains(
            ("thread_id"@, wanted[i].thread_id@),
        ) && draft_rows(wanted, pr)[i].contains(("title"@, wanted[i].draft.title@)) && draft_rows(
            wanted,
            pr,
        )[i].contains(("body"@, filed_body(wanted[i], pr))),
{
    if 0 <= i < wanted.len() {
        let row = draft_rows(wanted, pr)[i];
        assert(row[0] == ("thread_id"@, wanted[i].thread_id@));
        assert(row[1] == ("title"@, wanted[i].draft.title@));
        assert(row[2] == ("body"@, filed_body(wanted[i], pr)));
    }
}

/// How far into a filer's run a step stands.
pub open spec fn filer_turn(step: FilerStep) -> int {
    match step {
        FilerStep::Check => 0,
        FilerStep::ClearReport => 1,
        FilerStep::WriteStories => 2,
        FilerStep::WriteStub => 3,
        FilerStep::ReadEnvironment => 4,
        FilerStep::CheckToken => 5,
        FilerStep::Start => 6,
        FilerStep::Wait => 7,
        FilerStep::Kill => 8,
        FilerStep::CheckTree => 9,
        FilerStep::ReadReport => 10,
    }
}

proof fn lemma_filer_turn(step: FilerStep, ok: bool, k: FilerKind)
    ensures
        filer_after(Some(step), ok, k) matches Some(next) ==> filer_turn(step) < filer_turn(next),
{
}

#[verifier::spinoff_prover]
#[verifier::rlimit(50)]
proof fn lemma_filer_turns(steps: Seq<(FilerStep, bool, FilerKind)>, i: int, j: int)
    requires
        is_filer_run(steps),
        0 <= i < j < steps.len(),
    ensures
        filer_turn(steps[i].0) < filer_turn(steps[j].0),
    decreases j - i,
{
    lemma_filer_turn(steps[j - 1].0, steps[j - 1].1, steps[j].2);
    assert(Some(steps[j].0) == filer_after(
        Some(steps[j - 1].0),
        steps[j - 1].1,
        steps[j].2,
    ));
    if i < j - 1 {
        lemma_filer_turns(steps, i, j - 1);
    }
}

/// Every filer's run starts with its check and does no step twice; it stops at what failed
/// before it was started, but not at an old report that would not go.
#[verifier::spinoff_prover]
#[verifier::rlimit(50)]
pub proof fn a_filers_run_never_goes_back(
    steps: Seq<(FilerStep, bool, FilerKind)>,
    ok: bool,
    k: FilerKind,
    i: int,
    j: int,
)
    ensures
        filer_after(None, ok, k) == Some(FilerStep::Check),
        is_filer_run(steps) && 0 <= i < j < steps.len() ==> steps[i].0 != steps[j].0,
        is_filer_run(steps) && 0 <= i < steps.len() && !steps[i].1 && (steps[i].0 is Check
            || steps[i].0 is WriteStories || steps[i].0 is WriteStub
            || steps[i].0 is ReadEnvironment || steps[i].0 is CheckToken || steps[i].0 is Start)
            ==> i == steps.len() - 1,
        filer_after(Some(FilerStep::ClearReport), ok, k) == Some(FilerStep::WriteStories),
{
    if is_filer_run(steps) && 0 <= i < j < steps.len() {
        lemma_filer_turns(steps, i, j);
    }
    if is_filer_run(steps) && 0 <= i < steps.len() - 1 {
        assert(Some(steps[i + 1].0) == filer_after(
            Some(steps[i].0),
            steps[i].1,
            steps[i + 1].2,
        ));
    }
}

/// A filer that cannot run is refused for good.
pub proof fn a_filer_is_refused_for_good(
    tracker: bool,
    pr: u64,
    head_ref: Option<Seq<char>>,
    workspace: bool,
    path: bool,
)
    ensures
        filer_refusal(tracker, pr, head_ref, workspace, path) matches Some(w) ==> w.status() == 400,
{
}

} // verus!
