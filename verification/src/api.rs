//! What the daemon answers: the rules behind each request, from the values that were
//! read for it to the answer, the refusal or the new record.

pub mod archive;
pub mod door;
pub mod open;
pub mod rows;
pub mod talk;

use vstd::prelude::*;
use vstd::string::*;
use crate::ids::{hyphenated, session_text};
use crate::model::{Refusal, SessionId};
use crate::text::cat2;
pub use archive::{
    ArchiveQuery, DefQuery, DiffQuery, FileDiffQuery, FileVerbBody, PathsQuery, SearchQuery,
};
pub use door::{
    guard, host_allowed, is_agent_route, is_ask_route, is_proposals_route, is_triage_route,
    origin_allowed, origin_ok,
};
pub use open::{ClientNote, ClientTiming, OpenFile, OpenUrl, OpenUrls, RevealPath};
pub use rows::{
    AdoptOutside, NewSession, NewWorktree, ProcessBody, Rename, RestartAll, RestartAsk, SpawnBody,
    TeardownBody,
};
pub use talk::{AnswerBody, AskBody, NudgeBody, OutsideBody, TellBody};

verus! {

/// Why a request was refused.
#[derive(Debug)]
pub enum ApiError {
    /// A refusal whose kind the daemon knows.
    Refused(Refusal),
    /// A request that the daemon will not accept as written, or a step that failed.
    Failed(String),
}

/// What an error says, and which kind it is.
pub enum Said {
    Missing(Seq<char>),
    Busy(Seq<char>),
    Failed(Seq<char>),
}

impl Said {
    /// The status it is answered with.
    pub open spec fn status(self) -> u16 {
        match self {
            Said::Missing(_) => 404,
            Said::Busy(_) => 409,
            Said::Failed(_) => 400,
        }
    }

    /// The sentence shown for it.
    pub open spec fn words(self) -> Seq<char> {
        match self {
            Said::Missing(m) => m,
            Said::Busy(m) => m,
            Said::Failed(m) => m,
        }
    }
}

/// Whoever is refused can tell from the status what to do: what is not there is looked for
/// elsewhere, what is held is waited for, and anything else is asked otherwise. What is said is
/// said whole whichever it is.
pub proof fn a_status_tells_what_to_do(said: Said, words: Seq<char>)
    ensures
        said.status() == 404 <==> said is Missing,
        said.status() == 409 <==> said is Busy,
        said.status() == 400 <==> said is Failed,
        Said::Missing(words).words() == words,
        Said::Busy(words).words() == words,
        Said::Failed(words).words() == words,
{
}

impl View for ApiError {
    type V = Said;

    open spec fn view(&self) -> Said {
        match *self {
            ApiError::Refused(Refusal::Missing(m)) => Said::Missing(m@),
            ApiError::Refused(Refusal::Busy(m)) => Said::Busy(m@),
            ApiError::Failed(m) => Said::Failed(m@),
        }
    }
}

impl ApiError {
    /// The status it is answered with: 404 for what is not there, 409 for what is held,
    /// 400 for everything else.
    pub fn status(&self) -> (r: u16)
        ensures
            r == self@.status(),
    {
        match self {
            ApiError::Refused(Refusal::Missing(_)) => 404,
            ApiError::Refused(Refusal::Busy(_)) => 409,
            ApiError::Failed(_) => 400,
        }
    }

    /// The sentence shown for it.
    pub fn message(&self) -> (r: &str)
        ensures
            r@ == self@.words(),
    {
        match self {
            ApiError::Refused(r) => r.text(),
            ApiError::Failed(m) => m.as_str(),
        }
    }
}

/// A request the daemon will never accept as written.
pub fn refuse(words: String) -> (r: ApiError)
    ensures
        r@ == Said::Failed(words@),
{
    ApiError::Failed(words)
}

/// A temporary no: somebody else is holding it.
pub fn refuse_busy(words: String) -> (r: ApiError)
    ensures
        r@ == Said::Busy(words@),
{
    ApiError::Refused(Refusal::Busy(words))
}

/// Nothing here by that name.
pub fn refuse_missing(words: String) -> (r: ApiError)
    ensures
        r@ == Said::Missing(words@),
{
    ApiError::Refused(Refusal::Missing(words))
}

/// The refusal of a session id that nothing goes by.
pub open spec fn unknown_session(id: SessionId) -> Said {
    Said::Missing("no such session "@ + hyphenated(id))
}

pub fn no_such_session(id: SessionId) -> (r: ApiError)
    ensures
        r@ == unknown_session(id),
{
    let text: String = session_text(id);
    refuse_missing(cat2("no such session ", text.as_str()))
}

/// Who is not there is missed by name.
pub proof fn who_is_missing_is_named(id: SessionId)
    ensures
        unknown_session(id).status() == 404,
        hyphenated(id).is_suffix_of(unknown_session(id).words()),
{
    let w = unknown_session(id).words();
    let h = hyphenated(id);
    assert(w.subrange(w.len() - h.len(), w.len() as int) =~= h);
}

} // verus!
