//! Looking things up: past conversations, workspaces to search, diffs, and the verbs on
//! a changed file.

use vstd::prelude::*;
use vstd::string::*;
use crate::api::{refuse, refuse_busy, ApiError, Said};
use crate::paths::{relative, seen_from};
use crate::spaces::{find_home, home};
use crate::model::{Session, SessionId, State, Workspace};
use crate::text::{
    cat2, cat3, cat4, chars_of, copied, listed, lower, lowered, opt_str, opt_text, same, texts,
    trim, trimmed,
};

verus! {

pub struct ArchiveQuery {
    pub find: String,
}

pub struct SearchQuery {
    pub workspace: String,
    pub find: String,
}

pub struct DefQuery {
    pub workspace: String,
    /// The file the symbol was clicked in.
    pub path: String,
    pub symbol: String,
}

pub struct PathsQuery {
    pub workspace: String,
}

pub struct DiffQuery {
    pub workspace: String,
    pub base: Option<String>,
    pub pr_base: Option<String>,
}

pub struct FileDiffQuery {
    pub workspace: String,
    pub path: String,
    pub base: Option<String>,
    pub pr_base: Option<String>,
    /// Widening this is how expand-on-click is served.
    pub context: u32,
}

// ---------------------------------------------------------------------------
// Past conversations
// ---------------------------------------------------------------------------

/// What past conversations are searched for: the words in small letters, or nothing
/// where they are too few to tell anything apart.
pub open spec fn needle(find: Seq<char>) -> Option<Seq<char>> {
    let n = lowered(trimmed(find));
    if n.len() < 2 {
        None
    } else {
        Some(n)
    }
}

/// Past conversations are searched for what was typed, from two letters on, without the space
/// around it and with no regard to how it was capitalised.
pub proof fn what_was_typed_is_searched_for(find: Seq<char>, i: int)
    ensures
        needle(find) is Some <==> trimmed(find).len() >= 2,
        needle(find) is Some ==> needle(find)->Some_0.len() == trimmed(find).len(),
        needle(find) is Some && 0 <= i < trimmed(find).len() ==> needle(find)->Some_0[i] == (
        if 'A' <= trimmed(find)[i] <= 'Z' {
            (trimmed(find)[i] as u32 + 32) as char
        } else {
            trimmed(find)[i]
        }),
{
}

pub fn archive_needle(query: &ArchiveQuery) -> (r: Option<String>)
    ensures
        opt_text(r) == needle(query.find@),
{
    let words: String = trim(query.find.as_str());
    let low: String = lower(words.as_str());
    if chars_of(low.as_str()).len() < 2 {
        None
    } else {
        Some(low)
    }
}

/// A conversation that the daemon did not start, as it was found on disk.
pub struct Conversation {
    pub id: SessionId,
    pub workspace: String,
    /// The branch it was on, where its transcript says.
    pub branch: Option<String>,
    pub transcript: String,
}

/// Where a past conversation is looked for.
pub enum Kept {
    /// One of the daemon's own: where it ran, and the transcript it is known by.
    Own { cwd: String, recorded: Option<String> },
    /// One that the daemon did not start.
    Outside { transcript: String },
}

/// A past conversation.
pub struct Archived {
    pub id: SessionId,
    pub at: Kept,
}

/// Whether a session is a past conversation.
pub open spec fn is_past(s: Session) -> bool {
    s.state is Archived || s.state is Exited
}

/// The transcript a session is known by: the archived copy, else the one it wrote.
pub open spec fn recorded(s: Session) -> Option<String> {
    if s.archived_transcript is Some {
        s.archived_transcript
    } else {
        s.transcript_path
    }
}

pub open spec fn archived_as(s: Session) -> Archived {
    Archived { id: s.id, at: Kept::Own { cwd: s.cwd, recorded: recorded(s) } }
}

/// The past conversations of a list, in order.
pub open spec fn past(list: Seq<Session>) -> Seq<Archived>
    decreases list.len(),
{
    if list.len() == 0 {
        Seq::empty()
    } else if is_past(list.last()) {
        past(list.drop_last()).push(archived_as(list.last()))
    } else {
        past(list.drop_last())
    }
}

/// The conversations that the daemon did not start, in order.
pub open spec fn outside(list: Seq<Conversation>) -> Seq<Archived> {
    list.map_values(
        |c: Conversation| Archived { id: c.id, at: Kept::Outside { transcript: c.transcript } },
    )
}

/// Every session that is over is a past conversation, found where it ran and by the copy of its
/// transcript that was kept, or by its own where none was; what still runs or is at rest is
/// not one.
pub proof fn what_is_over_can_be_searched(
    list: Seq<Session>,
    s: Session,
    external: Seq<Conversation>,
    i: int,
)
    ensures
        past(Seq::empty()).len() == 0,
        s.state is Archived || s.state is Exited ==> past(list.push(s)).len() == past(list).len() + 1
            && past(list.push(s)).drop_last() == past(list) && past(list.push(s)).last().id == s.id
            && (past(list.push(s)).last().at matches Kept::Own { cwd, recorded } && cwd == s.cwd && (
        s.archived_transcript is Some ==> recorded == s.archived_transcript) && (
        s.archived_transcript is None ==> recorded == s.transcript_path)),
        !(s.state is Archived) && !(s.state is Exited) ==> past(list.push(s)) == past(list),
        outside(external).len() == external.len(),
        0 <= i < external.len() ==> outside(external)[i].id == external[i].id && (outside(
            external,
        )[i].at matches Kept::Outside { transcript } && transcript == external[i].transcript),
{
    assert(list.push(s).drop_last() =~= list);
    if is_past(s) {
        assert(past(list.push(s)).drop_last() =~= past(list));
    }
}

/// The conversations to search, and where each is looked for: the daemon's own past ones,
/// then those that it did not start.
pub fn search_archive(list: &Vec<Session>, external: &Vec<Conversation>) -> (r: Vec<Archived>)
    ensures
        r@ == past(list@) + outside(external@),
{
    let mut out: Vec<Archived> = Vec::new();
    let mut i: usize = 0;
    while i < list.len()
        invariant
            i <= list@.len(),
            out@ == past(list@.take(i as int)),
        decreases list@.len() - i,
    {
        proof {
            assert(list@.take(i + 1).drop_last() =~= list@.take(i as int));
            assert(list@.take(i + 1).last() == list@[i as int]);
        }
        let s: &Session = &list[i];
        if matches!(s.state, State::Archived { .. } | State::Exited) {
            let at: Option<String> = match &s.archived_transcript {
                Some(p) => Some(p.clone()),
                None => copied(&s.transcript_path),
            };
            out.push(Archived { id: s.id, at: Kept::Own { cwd: s.cwd.clone(), recorded: at } });
        }
        i += 1;
    }
    proof {
        assert(list@.take(i as int) =~= list@);
        assert(out@ =~= past(list@) + outside(external@).take(0));
    }
    let mut k: usize = 0;
    while k < external.len()
        invariant
            k <= external@.len(),
            out@ == past(list@) + outside(external@).take(k as int),
        decreases external@.len() - k,
    {
        let c: &Conversation = &external[k];
        out.push(Archived { id: c.id, at: Kept::Outside { transcript: c.transcript.clone() } });
        k += 1;
        proof {
            assert(out@ =~= past(list@) + outside(external@).take(k as int));
        }
    }
    proof {
        assert(outside(external@).take(k as int) =~= outside(external@));
    }
    out
}

// ---------------------------------------------------------------------------
// Workspaces and diffs
// ---------------------------------------------------------------------------

/// What a workspace's search does not descend into.
pub open spec fn passed_over(w: Workspace, worktrees_dir: Seq<char>) -> Option<Seq<char>> {
    if w.kind is Main {
        Some(worktrees_dir)
    } else {
        None
    }
}

/// A search of main passes over the worktrees, and one of a worktree passes over nothing.
pub proof fn only_main_holds_other_trees(w: Workspace, worktrees_dir: Seq<char>)
    ensures
        w.kind is Main ==> passed_over(w, worktrees_dir) == Some(worktrees_dir),
        !(w.kind is Main) ==> passed_over(w, worktrees_dir) is None,
{
}

/// Where a workspace's search starts, and what it must not descend into: main's tree
/// holds every worktree, so it alone has something to leave out.
pub fn searchable(spaces: &Vec<Workspace>, name: &str, worktrees_dir: &str) -> (r: Result<
    (String, Option<String>),
    ApiError,
>)
    ensures
        match home(spaces@, name@) {
            None => r is Err && r->Err_0@ == Said::Failed("unknown workspace "@ + name@),
            Some(w) => r is Ok && r->Ok_0.0 == w.path && opt_text(r->Ok_0.1) == passed_over(
                w,
                worktrees_dir@,
            ),
        },
{
    match find_home(spaces, name) {
        None => Err(refuse(cat2("unknown workspace ", name))),
        Some(w) => {
            let exclude: Option<String> = if w.is_main() {
                Some(worktrees_dir.to_owned())
            } else {
                None
            };
            Ok((w.path.clone(), exclude))
        },
    }
}

/// How many lines stand around a change where nothing is said.
pub fn default_context() -> (r: u32)
    ensures
        r == 3,
{
    3
}

/// The most lines that may be asked for around a change.
pub const CONTEXT_MAX: u32 = 10000;

/// The lines around a change that are shown where so many are asked for.
pub open spec fn context_of(asked: u32) -> u32 {
    if asked <= CONTEXT_MAX {
        asked
    } else {
        CONTEXT_MAX
    }
}

/// As many lines are shown around a change as are asked for, up to ten thousand: asking for
/// more never shows fewer.
pub proof fn as_much_is_shown_as_is_asked_for(asked: u32, more: u32)
    ensures
        asked <= 10_000 ==> context_of(asked) == asked,
        context_of(asked) <= 10_000,
        asked <= more ==> context_of(asked) <= context_of(more),
{
}

/// The lines around a change that a file's diff is made with.
pub fn diff_file(query: &FileDiffQuery) -> (r: u32)
    ensures
        r == context_of(query.context),
{
    if query.context <= CONTEXT_MAX {
        query.context
    } else {
        CONTEXT_MAX
    }
}

// ---------------------------------------------------------------------------
// The verbs on a changed file
// ---------------------------------------------------------------------------

pub struct FileVerbBody {
    pub workspace: String,
    pub path: String,
    /// `stage`, `unstage` or `discard`.
    pub verb: String,
}

#[derive(Debug, Clone, Copy, PartialEq, Eq, Structural)]
pub enum FileVerb {
    Stage,
    Unstage,
    Discard,
}

/// The verb that a word names.
pub open spec fn verb_of(word: Seq<char>) -> Option<FileVerb> {
    if word == "stage"@ {
        Some(FileVerb::Stage)
    } else if word == "unstage"@ {
        Some(FileVerb::Unstage)
    } else if word == "discard"@ {
        Some(FileVerb::Discard)
    } else {
        None
    }
}

/// What git says of a workspace's files.
pub struct Status {
    pub staged: Vec<String>,
    pub unstaged: Vec<String>,
    pub untracked: Vec<String>,
}

/// Whether a file has anything that a verb could act on.
pub open spec fn has_something(verb: FileVerb, status: Status, rel: Seq<char>) -> bool {
    match verb {
        FileVerb::Stage => texts(status.unstaged@).contains(rel) || texts(
            status.untracked@,
        ).contains(rel),
        FileVerb::Unstage => texts(status.staged@).contains(rel),
        FileVerb::Discard => texts(status.unstaged@).contains(rel),
    }
}

/// Each verb goes by its own word and no other word is one.
pub proof fn a_verb_goes_by_its_word(word: Seq<char>)
    ensures
        verb_of(word) == Some(FileVerb::Stage) <==> word == "stage"@,
        verb_of(word) == Some(FileVerb::Unstage) <==> word == "unstage"@,
        verb_of(word) == Some(FileVerb::Discard) <==> word == "discard"@,
{
    reveal_strlit("stage");
    reveal_strlit("unstage");
    reveal_strlit("discard");
    assert("stage"@.len() == 5);
    assert("unstage"@[0] == 'u');
    assert("discard"@[0] == 'd');
}

/// Why a verb is not done before its file is looked at, if it is not.
pub open spec fn verb_refusal(body: FileVerbBody, known: bool) -> Option<Said> {
    if verb_of(body.verb@) is None {
        Some(Said::Failed(body.verb@ + " is not a file verb"@))
    } else if !known {
        Some(Said::Failed("no such workspace: "@ + body.workspace@))
    } else {
        None
    }
}

/// The verb a request names and the path it is about, in a workspace that is known.
pub fn file_verb(body: &FileVerbBody, known: bool) -> (r: Result<(FileVerb, String), ApiError>)
    ensures
        match verb_refusal(*body, known) {
            Some(why) => r is Err && r->Err_0@ == why,
            None => r is Ok && r->Ok_0.0 == verb_of(body.verb@)->Some_0 && r->Ok_0.1@ == trimmed(
                body.path@,
            ),
        },
{
    let verb: FileVerb = if same(body.verb.as_str(), "stage") {
        FileVerb::Stage
    } else if same(body.verb.as_str(), "unstage") {
        FileVerb::Unstage
    } else if same(body.verb.as_str(), "discard") {
        FileVerb::Discard
    } else {
        return Err(refuse(cat2(body.verb.as_str(), " is not a file verb")));
    };
    if !known {
        return Err(refuse(cat2("no such workspace: ", body.workspace.as_str())));
    }
    Ok((verb, trim(body.path.as_str())))
}

/// Why a verb waits, if it does: somebody is mid-turn in the workspace.
pub open spec fn busy_refusal(body: FileVerbBody, busy: Option<Seq<char>>) -> Option<Said> {
    match busy {
        Some(who) => Some(
            Said::Busy(who + " is mid-turn in "@ + body.workspace@ + " — wait for it"@),
        ),
        None => None,
    }
}

/// Why a verb is not done on a file, if it is not: an agent is mid-turn beside it, or
/// there is nothing to do.
pub open spec fn file_refusal(
    body: FileVerbBody,
    verb: FileVerb,
    rel: Seq<char>,
    busy: Option<Seq<char>>,
    status: Status,
) -> Option<Said> {
    if busy_refusal(body, busy) is Some {
        busy_refusal(body, busy)
    } else if has_something(verb, status, rel) {
        None
    } else {
        Some(Said::Failed(rel + " has nothing to "@ + body.verb@))
    }
}

/// Whether nobody is mid-turn where a verb is to be done: `busy` is who is. It is asked
/// before git is.
pub fn verb_may_look(body: &FileVerbBody, busy: Option<&str>) -> (r: Result<(), ApiError>)
    ensures
        match busy_refusal(*body, opt_str(busy)) {
            Some(why) => r is Err && r->Err_0@ == why,
            None => r is Ok,
        },
{
    match busy {
        Some(who) => Err(
            refuse_busy(
                cat4(who, " is mid-turn in ", body.workspace.as_str(), " — wait for it"),
            ),
        ),
        None => Ok(()),
    }
}

/// The file that a verb is done on, by its path from the workspace's root: `root` is
/// where that is, and `file` the file's own path.
pub fn verb_may_run(
    body: &FileVerbBody,
    verb: FileVerb,
    root: &str,
    file: &str,
    status: &Status,
) -> (r: Result<String, ApiError>)
    ensures
        match file_refusal(*body, verb, seen_from(file@, root@), None, *status) {
            Some(why) => r is Err && r->Err_0@ == why,
            None => r is Ok && r->Ok_0@ == seen_from(file@, root@),
        },
{
    let path: String = relative(file, root);
    let rel: &str = path.as_str();
    let ok: bool = match verb {
        FileVerb::Stage => listed(&status.unstaged, rel) || listed(&status.untracked, rel),
        FileVerb::Unstage => listed(&status.staged, rel),
        FileVerb::Discard => listed(&status.unstaged, rel),
    };
    if ok {
        Ok(path)
    } else {
        Err(refuse(cat3(rel, " has nothing to ", body.verb.as_str())))
    }
}

/// Nothing is staged, unstaged or thrown away under an agent mid-turn, and only a file
/// that git knows to be changed is thrown away.
pub proof fn a_verb_waits_for_the_turn(
    body: FileVerbBody,
    verb: FileVerb,
    rel: Seq<char>,
    busy: Option<Seq<char>>,
    status: Status,
)
    requires
        file_refusal(body, verb, rel, busy, status) is None,
    ensures
        busy is None,
        verb == FileVerb::Discard ==> texts(status.unstaged@).contains(rel),
{
}

/// A verb is done wherever there is something for it and nobody is mid-turn: what is changed
/// or new is staged, what is staged is unstaged, and what is changed is thrown away. A busy
/// workspace is what is worth waiting for, and nothing else is.
pub proof fn a_verb_is_done_where_it_can_be(
    body: FileVerbBody,
    rel: Seq<char>,
    busy: Option<Seq<char>>,
    status: Status,
    known: bool,
)
    ensures
        verb_refusal(body, known) is None <==> known && (body.verb@ == "stage"@ || body.verb@
            == "unstage"@ || body.verb@ == "discard"@),
        busy_refusal(body, busy) is Some <==> busy is Some,
        busy_refusal(body, busy) is Some ==> busy_refusal(body, busy)->Some_0 is Busy,
        file_refusal(body, FileVerb::Stage, rel, busy, status) is None <==> busy is None && (texts(
            status.unstaged@,
        ).contains(rel) || texts(status.untracked@).contains(rel)),
        file_refusal(body, FileVerb::Unstage, rel, busy, status) is None <==> busy is None && texts(
            status.staged@,
        ).contains(rel),
        file_refusal(body, FileVerb::Discard, rel, busy, status) is None <==> busy is None && texts(
            status.unstaged@,
        ).contains(rel),
{
}

} // verus!
