//! Saying one thread's words out loud: the one irreversible act of a review.
//!
//! A story is filed before the reply that links to it, the token that stands for it
//! never goes out, and a repeated call does not post twice.

use vstd::prelude::*;
use vstd::string::*;
use crate::api::{refuse, ApiError, Said};
use crate::model::{Cache, StoryRef};
use crate::story::{
    a_retry_asks_only_for_what_is_missing, file_all, remembered, thread_outcome, told, Outcome, Run,
    StoryDraft, Told, Wanted,
};
use crate::tracker::{a_served_story_holds_together, link_text, served, story_number};
use crate::text::{cat3, opt_str, replace, replaced, same, stands_at, trim, trimmed};

verus! {

/// What stands for a story's link in a drafted reply.
pub const STORY_TOKEN: &'static str = "{story}";

/// What became of one thread's outward words.
#[derive(Debug)]
pub enum Posted {
    Sent,
    /// The identical body is already on the thread.
    AlreadyThere,
    /// The story the reply links to could not be filed, so nothing was said.
    HeldNoStory(String),
}

/// One comment of a thread.
pub struct Comment {
    pub author: String,
    pub body: String,
    pub url: String,
}

/// One review thread.
pub struct Thread {
    pub id: String,
    pub comments: Vec<Comment>,
    /// Whether it waits for an answer.
    pub answerable: bool,
}

/// The threads of a PR as they are now, and who is looking.
pub struct Threads {
    pub viewer: String,
    pub head_sha: Option<String>,
    pub items: Vec<Thread>,
}

/// Where the first thread of this id stands, or the list's length.
pub open spec fn thread_at(items: Seq<Thread>, id: Seq<char>) -> int
    decreases items.len(),
{
    if items.len() == 0 || items[0].id@ == id {
        0
    } else {
        1 + thread_at(items.skip(1), id)
    }
}

proof fn lemma_thread_at(items: Seq<Thread>, id: Seq<char>, i: int)
    requires
        0 <= i <= items.len(),
        forall|k: int| 0 <= k < i ==> (#[trigger] items[k]).id@ != id,
        i < items.len() ==> items[i].id@ == id,
    ensures
        thread_at(items, id) == i,
    decreases items.len(),
{
    if i > 0 {
        let rest = items.skip(1);
        assert(items[0].id@ != id);
        assert forall|k: int| 0 <= k < i - 1 implies (#[trigger] rest[k]).id@ != id by {
            assert(items[k + 1].id@ != id);
        }
        lemma_thread_at(rest, id, i - 1);
    }
}

fn find_thread(items: &Vec<Thread>, id: &str) -> (r: Option<usize>)
    ensures
        match r {
            Some(i) => i == thread_at(items@, id@) && i < items@.len(),
            None => thread_at(items@, id@) == items@.len(),
        },
{
    let mut i: usize = 0;
    while i < items.len()
        invariant
            i <= items@.len(),
            forall|k: int| 0 <= k < i ==> (#[trigger] items@[k]).id@ != id@,
        decreases items@.len() - i,
    {
        if same(items[i].id.as_str(), id) {
            proof {
                lemma_thread_at(items@, id@, i as int);
            }
            return Some(i);
        }
        i += 1;
    }
    proof {
        lemma_thread_at(items@, id@, i as int);
    }
    None
}

/// The link that a thread's story is keyed on: its first comment's, or none.
pub open spec fn permalink(fresh: Threads, id: Seq<char>) -> Seq<char> {
    let i = thread_at(fresh.items@, id);
    if i < fresh.items@.len() && fresh.items@[i].comments@.len() > 0 {
        fresh.items@[i].comments@[0].url@
    } else {
        ""@
    }
}

pub fn permalink_of(fresh: &Threads, thread_id: &str) -> (r: String)
    ensures
        r@ == permalink(*fresh, thread_id@),
{
    match find_thread(&fresh.items, thread_id) {
        Some(i) => if fresh.items[i].comments.len() > 0 {
            fresh.items[i].comments[0].url.clone()
        } else {
            "".to_owned()
        },
        None => "".to_owned(),
    }
}

// ---------------------------------------------------------------------------
// The words
// ---------------------------------------------------------------------------

/// Put the filed story's link into a reply, everywhere it stands for one.
pub fn with_story_id(reply: &str, story: &StoryRef) -> (r: String)
    ensures
        r@ == replaced(reply@, STORY_TOKEN@, story.linked()),
{
    proof {
        reveal_strlit("{story}");
    }
    let link: String = story.link();
    replace(reply, STORY_TOKEN, link.as_str())
}

/// Why a reply that needs a story cannot go out.
pub open spec fn missing_story(filed: Option<Outcome>) -> Seq<char> {
    match filed {
        Some(Err(e)) => e@,
        _ => "the story run answered nothing for this thread"@,
    }
}

pub fn no_story_reason(filed: Option<&Outcome>) -> (r: String)
    ensures
        r@ == missing_story(
            match filed {
                Some(o) => Some(*o),
                None => None,
            },
        ),
{
    match filed {
        Some(Err(e)) => e.clone(),
        _ => "the story run answered nothing for this thread".to_owned(),
    }
}

/// The story that a thread's reply links to, as it is asked for: keyed on the thread's
/// own link.
pub fn story_for(thread_id: &str, draft: &StoryDraft, fresh: &Threads) -> (r: Wanted)
    ensures
        r.thread_id@ == thread_id@,
        r.draft == *draft,
        r.permalink@ == permalink(*fresh, thread_id@),
{
    Wanted {
        thread_id: thread_id.to_owned(),
        draft: StoryDraft { title: draft.title.clone(), body: draft.body.clone() },
        permalink: permalink_of(fresh, thread_id),
    }
}

/// What the words of a thread come to, given what its story came to.
pub open spec fn is_worded(r: Result<String, Posted>, reply: Seq<char>, story: Told) -> bool {
    match story {
        Told::Story { id, url, .. } => r is Ok && r->Ok_0@ == replaced(
            reply,
            STORY_TOKEN@,
            link_text(id, url),
        ),
        Told::Nothing(why) => r is Err && (r->Err_0 matches Posted::HeldNoStory(w) && w@ == why),
    }
}

/// Whether a cache is the one before with a thread's story put in, where it has one, and
/// otherwise as it was: every other thread's is what it was.
pub open spec fn is_kept(
    before: Map<(u64, Seq<char>), StoryRef>,
    after: Map<(u64, Seq<char>), StoryRef>,
    pr: u64,
    thread: Seq<char>,
    story: Told,
) -> bool {
    match story {
        Told::Story { id, url, .. } => {
            let kept = after[(pr, thread)];
            after == before.insert((pr, thread), kept) && kept.id_text() == id && kept.url_text()
                == url
        },
        Told::Nothing(_) => after == before,
    }
}

/// The words that go out for a thread: the reply as it is, or with its story's link in
/// it. The story is filed first, and without it nothing goes out. `run` is what the filer
/// came to, where the story had to be asked for.
pub fn post_one(
    cache: &mut Cache,
    pr: u64,
    thread_id: &str,
    reply: &str,
    story: Option<&StoryDraft>,
    fresh: &Threads,
    host: Option<&str>,
    run: &Run,
) -> (r: Result<String, Posted>)
    requires
        old(cache).wf(),
    ensures
        final(cache).wf(),
        story is None ==> r is Ok && r->Ok_0@ == reply@ && final(cache).view() == old(
            cache,
        ).view(),
        story is Some ==> is_worded(
            r,
            reply@,
            thread_outcome(old(cache).view(), pr, thread_id@, opt_str(host), *run),
        ),
        story is Some ==> is_kept(
            old(cache).view(),
            final(cache).view(),
            pr,
            thread_id@,
            thread_outcome(old(cache).view(), pr, thread_id@, opt_str(host), *run),
        ),
        story is Some && r is Ok ==> served(
            final(cache).view(),
            pr,
            thread_id@,
            opt_str(host),
        ) is Some,
{
    let draft: &StoryDraft = match story {
        None => {
            return Ok(reply.to_owned());
        },
        Some(d) => d,
    };
    let mut wanted: Vec<Wanted> = Vec::new();
    wanted.push(story_for(thread_id, draft, fresh));
    let ghost before = cache.view();
    let out: Vec<(String, Outcome)> = file_all(cache, pr, &wanted, host, run);
    proof {
        assert(out@[0].0 == wanted@[0].thread_id);
        assert(out@.drop_last() =~= Seq::empty());
        assert(remembered(before, pr, out@.drop_last()) == before);
        if told(out@[0].1) is Story {
            a_retry_asks_only_for_what_is_missing(
                before,
                pr,
                wanted@,
                opt_str(host),
                *run,
                out@,
                0,
            );
        }
    }
    match &out[0].1 {
        Ok(f) => Ok(with_story_id(reply, &f.story)),
        other => Err(Posted::HeldNoStory(no_story_reason(Some(other)))),
    }
}

/// The token never goes out: no reply that went through the substitution still has it
/// anywhere, whatever the story's URL, unless that URL holds the token itself.
pub proof fn the_token_never_goes_out(
    cache: Map<(u64, Seq<char>), StoryRef>,
    pr: u64,
    thread: Seq<char>,
    host: Option<Seq<char>>,
    run: Run,
    reply: Seq<char>,
    r: Result<String, Posted>,
    at: int,
)
    requires
        is_worded(r, reply, thread_outcome(cache, pr, thread, host, run)),
        r is Ok,
        thread_outcome(cache, pr, thread, host, run) matches Told::Story { url, .. }
            ==> forall|k: int| !stands_at(url, k, STORY_TOKEN@),
    ensures
        !stands_at(r->Ok_0@, at, STORY_TOKEN@),
{
    a_served_story_holds_together(cache, pr, thread, host);
    if let Told::Story { id, url, .. } = thread_outcome(cache, pr, thread, host, run) {
        assert(story_number(id) is Some);
        lemma_link_holds_no_token(id, url);
        reveal_strlit("[");
        reveal_strlit("](");
        reveal_strlit(")");
        lemma_token_gone(reply, link_text(id, url), at);
    }
}

/// A link holds the token only where its URL does.
proof fn lemma_link_holds_no_token(id: Seq<char>, url: Seq<char>)
    requires
        story_number(id) is Some,
        forall|k: int| !stands_at(url, k, STORY_TOKEN@),
    ensures
        forall|k: int| !stands_at(link_text(id, url), k, STORY_TOKEN@),
{
    reveal_strlit("[");
    reveal_strlit("](");
    reveal_strlit(")");
    reveal_strlit("{story}");
    let link = link_text(id, url);
    let token = STORY_TOKEN@;
    let from = 3 + id.len() as int;
    assert forall|k: int| !stands_at(link, k, token) by {
        if stands_at(link, k, token) {
            let w = link.subrange(k, k + 7);
            assert(w[0] == '{' && w[6] == '}');
            assert(link[k] == '{');
            assert(link[k + 6] == '}');
            if k < from {
                if 1 <= k < 1 + id.len() {
                    crate::tracker::a_checked_id_cannot_escape_its_link(id, k - 1);
                    assert(link[k] == id[k - 1]);
                }
            } else if k + 6 < from + url.len() {
                assert(url.subrange(k - from, k - from + 7) =~= w);
                assert(stands_at(url, k - from, token));
            } else {
                assert(link[from + url.len()] == ')');
                assert(w[from + url.len() - k] == ')');
            }
        }
    }
}

proof fn lemma_token_gone(reply: Seq<char>, link: Seq<char>, at: int)
    requires
        forall|k: int| !stands_at(link, k, STORY_TOKEN@),
        link.len() > 0,
        link[0] == '[',
        link.last() == ')',
    ensures
        !stands_at(replaced(reply, STORY_TOKEN@, link), at, STORY_TOKEN@),
    decreases reply.len(),
{
    reveal_strlit("{story}");
    let token = STORY_TOKEN@;
    let out = replaced(reply, token, link);
    if stands_at(out, at, token) {
        assert(out.subrange(at, at + 7)[0] == '{');
        assert(out[at] == '{');
        if reply.len() < 7 {
            assert(out == reply);
        } else if stands_at(reply, 0, token) {
            let rest = replaced(reply.skip(7), token, link);
            if at + 7 <= link.len() {
                assert(link.subrange(at, at + 7) =~= out.subrange(at, at + 7));
                assert(stands_at(link, at, token));
            } else if at < link.len() {
                assert(out[link.len() - 1] == ')');
                assert(out.subrange(at, at + 7)[link.len() - 1 - at] == ')');
            } else {
                let k = at - link.len();
                assert(rest.subrange(k, k + 7) =~= out.subrange(at, at + 7));
                lemma_token_gone(reply.skip(7), link, k);
            }
        } else {
            let rest = replaced(reply.skip(1), token, link);
            if at > 0 {
                assert(rest.subrange(at - 1, at + 6) =~= out.subrange(at, at + 7));
                lemma_token_gone(reply.skip(1), link, at - 1);
            } else {
                lemma_head_survives(reply, link, 7);
                assert(reply.subrange(0, 7) =~= out.subrange(0, 7));
            }
        }
    }
}

/// As long as what comes out could still be the token, it is what went in.
proof fn lemma_head_survives(reply: Seq<char>, link: Seq<char>, n: int)
    requires
        link.len() > 0,
        link[0] == '[',
        1 <= n <= 7,
        reply.len() >= 7,
        !stands_at(reply, 0, STORY_TOKEN@),
        stands_at(replaced(reply, STORY_TOKEN@, link), 0, STORY_TOKEN@),
    ensures
        forall|k: int| 0 <= k < n ==> reply[k] == replaced(reply, STORY_TOKEN@, link)[k],
        replaced(reply, STORY_TOKEN@, link).skip(n) == replaced(
            reply.skip(n),
            STORY_TOKEN@,
            link,
        ),
    decreases n,
{
    reveal_strlit("{story}");
    let token = STORY_TOKEN@;
    let out = replaced(reply, token, link);
    assert(out.subrange(0, 7) == token);
    if n == 1 {
        assert(out.skip(1) =~= replaced(reply.skip(1), token, link));
    } else {
        lemma_head_survives(reply, link, n - 1);
        let rest = reply.skip(n - 1);
        let tail = replaced(rest, token, link);
        assert(out.skip(n - 1) == tail);
        assert(tail[0] == out[n - 1]);
        assert(out.subrange(0, 7)[n - 1] == token[n - 1]);
        if rest.len() < 7 {
            assert(tail == rest);
            assert(rest[0] == reply[n - 1]);
            assert(out.skip(n) =~= tail.skip(1));
            assert(reply.skip(n) =~= rest.skip(1));
            assert(replaced(rest.skip(1), token, link) == rest.skip(1));
        } else if stands_at(rest, 0, token) {
            assert(tail[0] == link[0]);
            assert(false);
        } else {
            assert(tail[0] == rest[0]);
            assert(out.skip(n) =~= tail.skip(1));
            assert(tail.skip(1) =~= replaced(rest.skip(1), token, link));
            assert(reply.skip(n) =~= rest.skip(1));
        }
    }
}

// ---------------------------------------------------------------------------
// Saying it once
// ---------------------------------------------------------------------------

/// Whether a comment is the viewer's own with these words.
pub open spec fn is_own_reply(c: Comment, viewer: Seq<char>, words: Seq<char>) -> bool {
    c.author@ == viewer && trimmed(c.body@) == trimmed(words)
}

/// Whether the viewer already said exactly this on a thread.
pub open spec fn was_said(fresh: Threads, id: Seq<char>, words: Seq<char>) -> bool {
    let i = thread_at(fresh.items@, id);
    i < fresh.items@.len() && exists|k: int|
        0 <= k < fresh.items@[i].comments@.len() && is_own_reply(
            #[trigger] fresh.items@[i].comments@[k],
            fresh.viewer@,
            words,
        )
}

/// Whether the viewer already said exactly this on a thread: `words` is the reply as
/// the forge writes it down.
pub fn already_replied(fresh: &Threads, thread_id: &str, words: &str) -> (r: bool)
    ensures
        r == was_said(*fresh, thread_id@, words@),
{
    let want: String = trim(words);
    match find_thread(&fresh.items, thread_id) {
        None => false,
        Some(i) => {
            let comments: &Vec<Comment> = &fresh.items[i].comments;
            let mut k: usize = 0;
            while k < comments.len()
                invariant
                    k <= comments@.len(),
                    want@ == trimmed(words@),
                    i == thread_at(fresh.items@, thread_id@),
                    i < fresh.items@.len(),
                    *comments == fresh.items@[i as int].comments,
                    forall|j: int|
                        0 <= j < k ==> !is_own_reply(
                            #[trigger] comments@[j],
                            fresh.viewer@,
                            words@,
                        ),
                decreases comments@.len() - k,
            {
                let body: String = trim(comments[k].body.as_str());
                if same(comments[k].author.as_str(), fresh.viewer.as_str()) && same(
                    body.as_str(),
                    want.as_str(),
                ) {
                    return true;
                }
                k += 1;
            }
            false
        },
    }
}

/// What is done about a reply.
#[derive(Debug, Clone, Copy, PartialEq, Eq, Structural)]
pub enum Send {
    /// Nothing: it is already there.
    AlreadyThere,
    /// Write it under the thread's first comment.
    Write,
}

/// What is done about a reply, by whether it was said and whether there is a comment to
/// answer, or nothing where it cannot be said.
pub open spec fn sending(said: bool, root: bool) -> Option<Send> {
    if said {
        Some(Send::AlreadyThere)
    } else if root {
        Some(Send::Write)
    } else {
        None
    }
}

/// A reply is written exactly where it was not said yet and there is a comment to answer,
/// and what was said is found though there is none.
pub proof fn a_reply_is_written_where_it_was_not_said(said: bool, root: bool)
    ensures
        sending(said, root) == Some(Send::Write) <==> !said && root,
        sending(said, root) == Some(Send::AlreadyThere) <==> said,
{
}

/// Post a reply unless exactly that is already on the thread: `words` is the reply as
/// the forge writes it down, and `root` whether the thread has a comment to answer.
pub fn send_reply_once(fresh: &Threads, thread_id: &str, words: &str, root: bool) -> (r: Result<
    Send,
    ApiError,
>)
    ensures
        match sending(was_said(*fresh, thread_id@, words@), root) {
            Some(send) => r == Ok::<Send, ApiError>(send),
            None => r is Err && r->Err_0@ == Said::Failed(
                "thread "@ + thread_id@ + " has no comment to answer"@,
            ),
        },
{
    if already_replied(fresh, thread_id, words) {
        return Ok(Send::AlreadyThere);
    }
    if root {
        Ok(Send::Write)
    } else {
        Err(refuse(cat3("thread ", thread_id, " has no comment to answer")))
    }
}

/// Whether a thread can be given a thumbs up.
pub fn react_one(thread_id: &str, root: bool) -> (r: Result<(), ApiError>)
    ensures
        if root {
            r is Ok
        } else {
            r is Err && r->Err_0@ == Said::Failed(
                "thread "@ + thread_id@ + " has no comment to react to"@,
            )
        },
{
    if root {
        Ok(())
    } else {
        Err(refuse(cat3("thread ", thread_id, " has no comment to react to")))
    }
}

/// A reply that went out is not sent again: once the thread holds the viewer's own
/// comment with those words, white space around them aside, the next call finds it there.
pub proof fn a_reply_is_sent_once(fresh: Threads, id: Seq<char>, words: Seq<char>, k: int)
    requires
        thread_at(fresh.items@, id) < fresh.items@.len(),
        0 <= k < fresh.items@[thread_at(fresh.items@, id)].comments@.len(),
        fresh.items@[thread_at(fresh.items@, id)].comments@[k].author@ == fresh.viewer@,
        trimmed(fresh.items@[thread_at(fresh.items@, id)].comments@[k].body@) == trimmed(words),
    ensures
        was_said(fresh, id, words),
{
    let c = fresh.items@[thread_at(fresh.items@, id)].comments@[k];
    assert(is_own_reply(c, fresh.viewer@, words));
}

/// A reply counts as said only where the viewer said it, in those words, on that thread:
/// nobody else's comment does, nor other words, nor another thread's.
pub proof fn only_ones_own_words_count_as_said(fresh: Threads, id: Seq<char>, words: Seq<char>)
    requires
        forall|i: int, k: int|
            0 <= i < fresh.items@.len() && (#[trigger] fresh.items@[i]).id@ == id && 0 <= k
                < fresh.items@[i].comments@.len() ==> (#[trigger] fresh.items@[i].comments@[k]).author@
                != fresh.viewer@ || trimmed(fresh.items@[i].comments@[k].body@) != trimmed(words),
    ensures
        !was_said(fresh, id, words),
{
    lemma_found(fresh.items@, id);
}

proof fn lemma_found(items: Seq<Thread>, id: Seq<char>)
    ensures
        0 <= thread_at(items, id) <= items.len(),
        thread_at(items, id) < items.len() ==> items[thread_at(items, id)].id@ == id,
        forall|k: int| 0 <= k < thread_at(items, id) ==> (#[trigger] items[k]).id@ != id,
    decreases items.len(),
{
    if items.len() > 0 && items[0].id@ != id {
        let rest = items.skip(1);
        lemma_found(rest, id);
        assert forall|k: int| 0 <= k < thread_at(items, id) implies (#[trigger] items[k]).id@
            != id by {
            if k > 0 {
                assert(rest[k - 1] == items[k]);
            }
        }
    }
}

/// A thread's story is keyed on the link of its own first comment, and on nothing where
/// there is none.
pub proof fn a_story_is_keyed_on_its_own_thread(fresh: Threads, id: Seq<char>, i: int)
    requires
        0 <= i < fresh.items@.len(),
        fresh.items@[i].id@ == id,
        forall|k: int| 0 <= k < i ==> (#[trigger] fresh.items@[k]).id@ != id,
    ensures
        fresh.items@[i].comments@.len() > 0 ==> permalink(fresh, id)
            == fresh.items@[i].comments@[0].url@,
        fresh.items@[i].comments@.len() == 0 ==> permalink(fresh, id) == ""@,
{
    lemma_thread_at(fresh.items@, id, i);
}

/// A reply goes out with its story's link wherever it has one, and not at all, for the reason
/// there is none, where it needs one and has none.
pub proof fn a_reply_waits_for_its_story(
    r: Result<String, Posted>,
    reply: Seq<char>,
    id: Seq<char>,
    url: Seq<char>,
    reused: bool,
    why: Seq<char>,
)
    ensures
        is_worded(r, reply, Told::Story { id, url, reused }) ==> r is Ok && r->Ok_0@ == replaced(
            reply,
            "{story}"@,
            "["@ + id + "]("@ + url + ")"@,
        ),
        is_worded(r, reply, Told::Nothing(why)) ==> r is Err && (r->Err_0 matches
            Posted::HeldNoStory(w) && w@ == why),
{
}

/// A thread's story is kept under that thread, and no other thread's is touched; where there
/// is none nothing is kept.
pub proof fn a_story_is_kept_under_its_thread(
    before: Map<(u64, Seq<char>), StoryRef>,
    after: Map<(u64, Seq<char>), StoryRef>,
    pr: u64,
    thread: Seq<char>,
    story: Told,
    other: (u64, Seq<char>),
)
    requires
        is_kept(before, after, pr, thread, story),
    ensures
        story is Story ==> after.contains_key((pr, thread)) && after[(pr, thread)].id_text()
            == story->id && after[(pr, thread)].url_text() == story->url,
        story is Nothing ==> after == before,
        other != (pr, thread) ==> (after.contains_key(other) <==> before.contains_key(other)),
        other != (pr, thread) && before.contains_key(other) ==> after[other] == before[other],
{
}

/// Where a story is missing the filer's own reason is given, if it gave one.
pub proof fn a_missing_story_is_explained(filed: Option<Outcome>)
    ensures
        filed matches Some(Err(e)) ==> missing_story(filed) == e@,
        filed is None ==> missing_story(filed) == "the story run answered nothing for this thread"@,
{
}

} // verus!
