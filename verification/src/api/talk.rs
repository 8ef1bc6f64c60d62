//! The channel between a session and you: what it asks, what you answer, and what is
//! typed at it.

use vstd::prelude::*;
use vstd::string::*;
use crate::api::door::{judged, needs_token, Door, Knock, Verdict};
use crate::api::{
    no_such_session, refuse, refuse_busy, unknown_session, ApiError, Said,
};
use crate::ids::{hyphenated, session_text};
use crate::model::{
    entered, Interaction, InteractionOption, Moment, OutsideAsk, Pty, Session, SessionId, State,
    TurnReason,
};
use crate::paths::{absolute, fold, folded, is_absolute, is_under};
use crate::sessions::{lemma_seat, lemma_seat_found, locate, only_changed, same_ids, seat, seated};
use crate::text::{
    byte_len, bytes, cat2, cat3, cat4, copies, decimal, holds_text, ink, ink_of, number, opt_str,
    opt_text, same, stands_at, texts, trim, trim_end, trimmed, without_trailing,
};

verus! {

/// The credentials a request carries, beside the one the daemon compares them with.
pub struct Keys {
    pub app_token: String,
    /// The `x-orch-ask` header.
    pub ask: Option<String>,
    /// The `x-orch-token` header.
    pub token: Option<String>,
}

/// The credential an agent's request is judged by: its ask header, else its token
/// header, else nothing.
pub open spec fn given(keys: Keys) -> Seq<char> {
    match opt_text(keys.ask) {
        Some(a) => a,
        None => match opt_text(keys.token) {
            Some(t) => t,
            None => Seq::empty(),
        },
    }
}

/// Why a caller is not the agent whose session it claims to be, if it is not.
pub open spec fn ask_key_refusal(list: Seq<Session>, keys: Keys, id: SessionId) -> Option<Said> {
    if given(keys) == keys.app_token@ {
        None
    } else if !seated(list, id) {
        Some(unknown_session(id))
    } else if given(keys).len() == 0 || given(keys) != list[seat(list, id)].ask_token@ {
        Some(Said::Failed("bad ask token for session "@ + hyphenated(id)))
    } else {
        None
    }
}

fn text_or_nothing(o: &Option<String>) -> (r: &str)
    ensures
        r@ == match opt_text(*o) {
            Some(t) => t,
            None => Seq::empty(),
        },
{
    match o {
        Some(t) => t.as_str(),
        None => {
            proof {
                reveal_strlit("");
                assert(""@ =~= Seq::<char>::empty());
            }
            ""
        },
    }
}

/// Is this caller the agent whose session it claims to be? The app token is taken as
/// well.
pub fn ask_token_ok(list: &Vec<Session>, keys: &Keys, id: SessionId) -> (r: Result<(), ApiError>)
    ensures
        match ask_key_refusal(list@, *keys, id) {
            None => r is Ok,
            Some(why) => r is Err && r->Err_0@ == why,
        },
{
    let given: &str = match &keys.ask {
        Some(a) => a.as_str(),
        None => text_or_nothing(&keys.token),
    };
    if same(given, keys.app_token.as_str()) {
        return Ok(());
    }
    let i: usize = match locate(list, id) {
        Some(i) => i,
        None => {
            return Err(no_such_session(id));
        },
    };
    if given.is_empty() || !same(given, list[i].ask_token.as_str()) {
        let text: String = session_text(id);
        return Err(refuse(cat2("bad ask token for session ", text.as_str())));
    }
    Ok(())
}

/// Why a caller is not the run that a PR is expecting proposals from, if it is not.
pub open spec fn proposal_key_refusal(
    expected: Option<Seq<char>>,
    keys: Keys,
    pr: u64,
) -> Option<Said> {
    let given = match opt_text(keys.token) {
        Some(t) => t,
        None => Seq::empty(),
    };
    if given == keys.app_token@ || (given.len() > 0 && expected == Some(given)) {
        None
    } else {
        Some(Said::Failed("bad proposals token for PR #"@ + decimal(pr as nat)))
    }
}

/// Is this caller the run this PR is expecting proposals from? A PR with no token
/// recorded refuses everything except the app token.
pub fn proposal_token_ok(expected: Option<&str>, keys: &Keys, pr: u64) -> (r: Result<(), ApiError>)
    ensures
        match proposal_key_refusal(opt_str(expected), *keys, pr) {
            None => r is Ok,
            Some(why) => r is Err && r->Err_0@ == why,
        },
{
    let given: &str = text_or_nothing(&keys.token);
    if same(given, keys.app_token.as_str()) {
        return Ok(());
    }
    let ok: bool = match expected {
        Some(want) => !given.is_empty() && same(given, want),
        None => false,
    };
    if ok {
        Ok(())
    } else {
        let n: String = number(pr);
        Err(refuse(cat2("bad proposals token for PR #", n.as_str())))
    }
}

/// Only the app token or the token that was minted for a session opens that session's
/// routes, and an empty credential opens nothing that the app token does not.
pub proof fn a_session_is_opened_by_its_own_token(list: Seq<Session>, keys: Keys, id: SessionId)
    requires
        ask_key_refusal(list, keys, id) is None,
    ensures
        given(keys) == keys.app_token@ || (seated(list, id) && given(keys).len() > 0 && given(keys)
            == list[seat(list, id)].ask_token@),
{
}

/// Whoever carries the app token, or the token of the session it speaks for, gets in; the ask
/// header counts before the other; and nobody gets in with another session's token or with
/// none.
pub proof fn an_agent_is_let_in_on_its_own_token(
    list: Seq<Session>,
    keys: Keys,
    id: SessionId,
    i: int,
)
    requires
        0 <= i < list.len(),
        list[i].id == id,
        forall|k: int| 0 <= k < i ==> (#[trigger] list[k]).id != id,
        list[i].ask_token@.len() > 0,
        keys.app_token@.len() > 0,
    ensures
        keys.ask is Some ==> (ask_key_refusal(list, keys, id) is None <==> keys.ask->Some_0@
            == keys.app_token@ || keys.ask->Some_0@ == list[i].ask_token@),
        keys.ask is None && keys.token is Some ==> (ask_key_refusal(list, keys, id) is None
            <==> keys.token->Some_0@ == keys.app_token@ || keys.token->Some_0@
            == list[i].ask_token@),
        keys.ask is None && keys.token is None ==> ask_key_refusal(list, keys, id) is Some,
{
    lemma_seat(list, id, i);
}

/// The run that a PR expects is let in on the token minted for it, and so is the app; where
/// none was minted only the app is, and nobody is without a token.
pub proof fn a_run_is_let_in_on_the_token_minted_for_it(minted: Seq<char>, keys: Keys, pr: u64)
    requires
        keys.app_token@.len() > 0,
        minted.len() > 0,
    ensures
        keys.token is Some ==> (proposal_key_refusal(Some(minted), keys, pr) is None
            <==> keys.token->Some_0@ == minted || keys.token->Some_0@ == keys.app_token@),
        keys.token is Some ==> (proposal_key_refusal(None, keys, pr) is None <==> keys.token->Some_0@
            == keys.app_token@),
        keys.token is None ==> proposal_key_refusal(Some(minted), keys, pr) is Some,
{
}

/// The token that a run is handed to post its proposals with opens nothing else: no
/// session's routes, no other PR's, and nothing that the app token is needed for.
pub proof fn a_proposals_token_opens_nothing_else(
    door: Door,
    k: Knock,
    v: Verdict,
    list: Seq<Session>,
    keys: Keys,
    id: SessionId,
    minted: Seq<char>,
    other: Option<Seq<char>>,
    pr: u64,
)
    requires
        keys.ask is None,
        opt_text(keys.token) == Some(minted),
        minted != keys.app_token@,
        seated(list, id) ==> list[seat(list, id)].ask_token@ != minted,
        other != Some(minted),
        opt_text(k.token) == Some(minted),
        door.token@ == keys.app_token@,
        judged(door, k, v),
        needs_token(k),
    ensures
        ask_key_refusal(list, keys, id) is Some,
        proposal_key_refusal(other, keys, pr) is Some,
        !(v is Pass),
{
}

// ---------------------------------------------------------------------------
// Asking
// ---------------------------------------------------------------------------

pub struct AskBody {
    pub question: String,
    pub thread_id: Option<String>,
    pub detail: Option<String>,
    pub options: Vec<InteractionOption>,
}

/// Whether a session is blocked on a question that has no answer yet.
pub open spec fn is_asking(s: Session) -> bool {
    s.interaction matches Some(i) && i.answer is None
}

/// A session blocked on a question from now on.
pub open spec fn blocked_on(s: Session, q: Interaction, now: Moment) -> Session {
    entered(
        Session { interaction: Some(q), ..s },
        State::YourTurn { since: now, reason: TurnReason::AskedAQuestion },
        now,
    )
}

pub open spec fn already_asking(id: SessionId) -> Said {
    Said::Busy("session "@ + hyphenated(id) + " is already asking something else"@)
}

fn busy_asking(id: SessionId) -> (r: ApiError)
    ensures
        r@ == already_asking(id),
{
    let text: String = session_text(id);
    refuse_busy(cat3("session ", text.as_str(), " is already asking something else"))
}

/// Why a question is not put to you, if it is not.
pub open spec fn ask_refusal(
    list: Seq<Session>,
    keys: Keys,
    id: SessionId,
    body: AskBody,
) -> Option<Said> {
    if ask_key_refusal(list, keys, id) is Some {
        ask_key_refusal(list, keys, id)
    } else if trimmed(body.question@).len() == 0 {
        Some(Said::Failed("a question with no words"@))
    } else if body.options@.len() == 0 {
        Some(
            Said::Failed(
                "a question with no options: the overlay renders buttons, not a prompt"@,
            ),
        )
    } else if !seated(list, id) {
        Some(unknown_session(id))
    } else if is_asking(list[seat(list, id)]) {
        Some(already_asking(id))
    } else {
        None
    }
}

/// A question is put to you wherever it has words and options and its session asks nothing
/// else: an answered question is in nobody's way.
pub proof fn a_session_may_ask_one_thing_at_a_time(
    list: Seq<Session>,
    keys: Keys,
    id: SessionId,
    body: AskBody,
    i: int,
)
    requires
        0 <= i < list.len(),
        list[i].id == id,
        forall|k: int| 0 <= k < i ==> (#[trigger] list[k]).id != id,
        ask_key_refusal(list, keys, id) is None,
    ensures
        ask_refusal(list, keys, id, body) is None <==> trimmed(body.question@).len() > 0
            && body.options@.len() > 0 && (list[i].interaction is None
            || list[i].interaction->Some_0.answer is Some),
        ask_refusal(list, keys, id, body) matches Some(Said::Busy(_)) ==> list[i].interaction is Some
            && list[i].interaction->Some_0.answer is None,
{
    lemma_seat(list, id, i);
}

/// A session that asks waits on you from now on, with its question, and is otherwise as it
/// was; its turn counts as ended.
pub proof fn a_session_that_asks_waits(s: Session, q: Interaction, now: Moment)
    ensures
        blocked_on(s, q, now).interaction == Some(q),
        blocked_on(s, q, now).state == (State::YourTurn {
            since: now,
            reason: TurnReason::AskedAQuestion,
        }),
        !blocked_on(s, q, now).interrupted,
        blocked_on(s, q, now) == (Session {
            interaction: Some(q),
            state: State::YourTurn { since: now, reason: TurnReason::AskedAQuestion },
            state_since: blocked_on(s, q, now).state_since,
            interrupted: false,
            ..s
        }),
{
}

/// A running session asks you something and blocks on the answer. One question per
/// session at a time.
pub fn ask(
    list: &mut Vec<Session>,
    keys: &Keys,
    id: SessionId,
    body: AskBody,
    ask_id: SessionId,
    now: Moment,
) -> (r: Result<SessionId, ApiError>)
    ensures
        same_ids(old(list)@, final(list)@),
        match ask_refusal(old(list)@, *keys, id, body) {
            Some(why) => r is Err && r->Err_0@ == why && final(list)@ == old(list)@,
            None => {
                let i = seat(old(list)@, id);
                &&& r == Ok::<SessionId, ApiError>(ask_id)
                &&& only_changed(old(list)@, final(list)@, i)
                &&& final(list)@[i] == blocked_on(
                    old(list)@[i],
                    (Interaction {
                        id: ask_id,
                        thread_id: body.thread_id,
                        question: body.question,
                        detail: body.detail,
                        options: body.options,
                        asked_at: now,
                        answer: None,
                        answer_text: None,
                    }),
                    now,
                )
            },
        },
{
    match ask_token_ok(list, keys, id) {
        Err(e) => {
            return Err(e);
        },
        Ok(()) => {},
    }
    let words: String = trim(body.question.as_str());
    if words.as_str().is_empty() {
        return Err(refuse("a question with no words".to_owned()));
    }
    if body.options.len() == 0 {
        return Err(
            refuse(
                "a question with no options: the overlay renders buttons, not a prompt".to_owned(),
            ),
        );
    }
    let i: usize = match locate(list, id) {
        Some(i) => i,
        None => {
            return Err(no_such_session(id));
        },
    };
    let asking: bool = match &list[i].interaction {
        Some(open) => open.answer.is_none(),
        None => false,
    };
    if asking {
        return Err(busy_asking(id));
    }
    let s: &mut Session = &mut list[i];
    s.interaction = Some(
        Interaction {
            id: ask_id,
            thread_id: body.thread_id,
            question: body.question,
            detail: body.detail,
            options: body.options,
            asked_at: now,
            answer: None,
            answer_text: None,
        },
    );
    s.set_state(State::YourTurn { since: now, reason: TurnReason::AskedAQuestion }, now);
    Ok(ask_id)
}

/// What one look at an open question finds.
#[derive(Debug)]
pub enum Poll {
    Answered { answer: String, text: Option<String> },
    Pending,
}

/// Why a question can no longer be waited for, if it cannot.
pub open spec fn wait_refusal(
    list: Seq<Session>,
    keys: Keys,
    id: SessionId,
    ask_id: SessionId,
) -> Option<Said> {
    if ask_key_refusal(list, keys, id) is Some {
        ask_key_refusal(list, keys, id)
    } else if !seated(list, id) {
        Some(unknown_session(id))
    } else if list[seat(list, id)].interaction matches Some(q) && q.id == ask_id {
        None
    } else {
        Some(
            Said::Failed(
                "question "@ + hyphenated(ask_id) + " is no longer open on session "@
                    + hyphenated(id),
            ),
        )
    }
}

/// One look at a question that an agent waits on: its answer, or that there is none
/// yet. One that is gone or replaced will never be answered, and says so.
pub fn ask_wait(list: &Vec<Session>, keys: &Keys, id: SessionId, ask_id: SessionId) -> (r: Result<
    Poll,
    ApiError,
>)
    ensures
        match wait_refusal(list@, *keys, id, ask_id) {
            Some(why) => r is Err && r->Err_0@ == why,
            None => {
                let q = list@[seat(list@, id)].interaction->Some_0;
                r == match q.answer {
                    Some(answer) => Ok::<Poll, ApiError>(
                        Poll::Answered { answer, text: q.answer_text },
                    ),
                    None => Ok::<Poll, ApiError>(Poll::Pending),
                }
            },
        },
{
    match ask_token_ok(list, keys, id) {
        Err(e) => {
            return Err(e);
        },
        Ok(()) => {},
    }
    let i: usize = match locate(list, id) {
        Some(i) => i,
        None => {
            return Err(no_such_session(id));
        },
    };
    match &list[i].interaction {
        Some(q) => {
            if q.id == ask_id {
                return Ok(
                    match &q.answer {
                        Some(answer) => Poll::Answered {
                            answer: answer.clone(),
                            text: match &q.answer_text {
                                Some(t) => Some(t.clone()),
                                None => None,
                            },
                        },
                        None => Poll::Pending,
                    },
                );
            }
        },
        None => {},
    }
    let a: String = session_text(ask_id);
    let b: String = session_text(id);
    Err(refuse(cat4("question ", a.as_str(), " is no longer open on session ", b.as_str())))
}

/// A question is waited for exactly as long as it is the one on its session, answered or not.
pub proof fn a_question_is_waited_for_while_it_is_open(
    list: Seq<Session>,
    keys: Keys,
    id: SessionId,
    ask_id: SessionId,
    i: int,
)
    requires
        0 <= i < list.len(),
        list[i].id == id,
        forall|k: int| 0 <= k < i ==> (#[trigger] list[k]).id != id,
        ask_key_refusal(list, keys, id) is None,
    ensures
        wait_refusal(list, keys, id, ask_id) is None <==> list[i].interaction is Some
            && list[i].interaction->Some_0.id == ask_id,
{
    lemma_seat(list, id, i);
}

// ---------------------------------------------------------------------------
// Answering
// ---------------------------------------------------------------------------

pub struct AnswerBody {
    pub ask: SessionId,
    pub answer: String,
    /// Required by an option that asked for words, refused by one that did not.
    pub text: Option<String>,
}

/// The answer that grants a folder.
pub const OUTSIDE_ALLOW: &'static str = "outside-allow";

/// The answer that does not.
pub const OUTSIDE_NO: &'static str = "outside-no";

/// Where the first option with this value stands, or the list's length.
pub open spec fn option_at(options: Seq<InteractionOption>, value: Seq<char>) -> int
    decreases options.len(),
{
    if options.len() == 0 || options[0].value@ == value {
        0
    } else {
        1 + option_at(options.skip(1), value)
    }
}

proof fn lemma_option_at(options: Seq<InteractionOption>, value: Seq<char>, i: int)
    requires
        0 <= i <= options.len(),
        forall|k: int| 0 <= k < i ==> (#[trigger] options[k]).value@ != value,
        i < options.len() ==> options[i].value@ == value,
    ensures
        option_at(options, value) == i,
    decreases options.len(),
{
    if i > 0 {
        let rest = options.skip(1);
        assert(options[0].value@ != value);
        assert forall|k: int| 0 <= k < i - 1 implies (#[trigger] rest[k]).value@ != value by {
            assert(options[k + 1].value@ != value);
        }
        lemma_option_at(rest, value, i - 1);
    }
}

fn find_option(options: &Vec<InteractionOption>, value: &str) -> (r: usize)
    ensures
        r == option_at(options@, value@),
        r <= options@.len(),
{
    let mut i: usize = 0;
    while i < options.len()
        invariant
            i <= options@.len(),
            forall|k: int| 0 <= k < i ==> (#[trigger] options@[k]).value@ != value@,
        decreases options@.len() - i,
    {
        if same(options[i].value.as_str(), value) {
            proof {
                lemma_option_at(options@, value@, i as int);
            }
            return i;
        }
        i += 1;
    }
    proof {
        lemma_option_at(options@, value@, i as int);
    }
    i
}

/// Why an answer is not taken, if it is not.
pub open spec fn answer_refusal(list: Seq<Session>, id: SessionId, body: AnswerBody) -> Option<
    Said,
> {
    if !seated(list, id) {
        Some(unknown_session(id))
    } else {
        match list[seat(list, id)].interaction {
            Some(q) if q.id == body.ask => {
                let k = option_at(q.options@, body.answer@);
                let words = ink(opt_text(body.text));
                if k >= q.options@.len() {
                    Some(Said::Failed(body.answer@ + " is not one of the options"@))
                } else if q.options@[k].free && words is None {
                    Some(
                        Said::Failed(
                            "\""@ + q.options@[k].label@
                                + "\" is the option that asks for words, and none were written"@,
                        ),
                    )
                } else if !q.options@[k].free && words is Some {
                    Some(Said::Failed("\""@ + q.options@[k].label@ + "\" takes no words"@))
                } else {
                    None
                }
            },
            _ => Some(
                Said::Failed(
                    "session "@ + hyphenated(id) + " is not asking "@ + hyphenated(body.ask),
                ),
            ),
        }
    }
}

/// An answer is taken wherever it answers the question that is open with one of its options,
/// with words exactly where that option asks for some.
pub proof fn an_offered_answer_is_taken(
    list: Seq<Session>,
    id: SessionId,
    body: AnswerBody,
    i: int,
    k: int,
)
    requires
        0 <= i < list.len(),
        list[i].id == id,
        forall|j: int| 0 <= j < i ==> (#[trigger] list[j]).id != id,
    ensures
        list[i].interaction is None || list[i].interaction->Some_0.id != body.ask ==> answer_refusal(
            list,
            id,
            body,
        ) is Some,
        list[i].interaction is Some && list[i].interaction->Some_0.id == body.ask ==> {
            let options = list[i].interaction->Some_0.options@;
            let first = 0 <= k < options.len() && options[k].value@ == body.answer@ && forall|j: int|
                0 <= j < k ==> (#[trigger] options[j]).value@ != body.answer@;
            &&& first ==> (answer_refusal(list, id, body) is None <==> options[k].free == (ink(
                opt_text(body.text),
            ) is Some))
            &&& (forall|j: int|
                0 <= j < options.len() ==> (#[trigger] options[j]).value@ != body.answer@)
                ==> answer_refusal(list, id, body) is Some
        },
{
    lemma_seat(list, id, i);
    if let Some(q) = list[i].interaction {
        let options = q.options@;
        if 0 <= k < options.len() && options[k].value@ == body.answer@ && forall|j: int|
            0 <= j < k ==> (#[trigger] options[j]).value@ != body.answer@ {
            lemma_option_at(options, body.answer@, k);
        }
        if forall|j: int|
            0 <= j < options.len() ==> (#[trigger] options[j]).value@ != body.answer@ {
            lemma_option_at(options, body.answer@, options.len() as int);
        }
    }
}

/// Whether an answer grants the folder that the daemon's own question asked about.
pub open spec fn grants(s: Session, body: AnswerBody) -> bool {
    body.answer@ == OUTSIDE_ALLOW@ && (s.outside_ask matches Some(a) && a.id == body.ask
        && !s.may_reach(a.path@))
}

/// What an answer makes of the session that asked.
pub open spec fn answered(s: Session, body: AnswerBody, now: Moment, after: Session) -> bool {
    let q = s.interaction->Some_0;
    &&& after == entered(
        Session { interaction: after.interaction, outside_grants: after.outside_grants, ..s },
        State::Working,
        now,
    )
    &&& after.interaction matches Some(p) && p == (Interaction {
        answer: Some(body.answer),
        answer_text: p.answer_text,
        ..q
    }) && opt_text(p.answer_text) == ink(opt_text(body.text))
    &&& after.outside_grants@ == if grants(s, body) {
        s.outside_grants@.push(s.outside_ask->Some_0.path)
    } else {
        s.outside_grants@
    }
}

/// Your answer, which releases the tool call the agent is sitting in. Only what was
/// offered is taken, and words only where they were asked for.
pub fn answer(list: &mut Vec<Session>, id: SessionId, body: &AnswerBody, now: Moment) -> (r: Result<
    (),
    ApiError,
>)
    ensures
        same_ids(old(list)@, final(list)@),
        match answer_refusal(old(list)@, id, *body) {
            Some(why) => r is Err && r->Err_0@ == why && final(list)@ == old(list)@,
            None => {
                let i = seat(old(list)@, id);
                &&& r is Ok
                &&& only_changed(old(list)@, final(list)@, i)
                &&& answered(old(list)@[i], *body, now, final(list)@[i])
            },
        },
{
    let i: usize = match locate(list, id) {
        Some(i) => i,
        None => {
            return Err(no_such_session(id));
        },
    };
    let is_open: bool = match &list[i].interaction {
        Some(q) => q.id == body.ask,
        None => false,
    };
    if !is_open {
        let a: String = session_text(id);
        let b: String = session_text(body.ask);
        return Err(refuse(cat4("session ", a.as_str(), " is not asking ", b.as_str())));
    }
    let words: Option<String> = ink_of(&body.text);
    match &list[i].interaction {
        Some(q) => {
            let k: usize = find_option(&q.options, body.answer.as_str());
            if k >= q.options.len() {
                return Err(refuse(cat2(body.answer.as_str(), " is not one of the options")));
            }
            let picked: &InteractionOption = &q.options[k];
            if picked.free && words.is_none() {
                return Err(
                    refuse(
                        cat3(
                            "\"",
                            picked.label.as_str(),
                            "\" is the option that asks for words, and none were written",
                        ),
                    ),
                );
            }
            if !picked.free && words.is_some() {
                return Err(refuse(cat3("\"", picked.label.as_str(), "\" takes no words")));
            }
        },
        None => {},
    }
    let grant: Option<String> = if same(body.answer.as_str(), OUTSIDE_ALLOW) {
        match &list[i].outside_ask {
            Some(a) => if a.id == body.ask && !list[i].outside_granted(a.path.as_str()) {
                Some(a.path.clone())
            } else {
                None
            },
            None => None,
        }
    } else {
        None
    };
    let s: &mut Session = &mut list[i];
    match &mut s.interaction {
        Some(q) => {
            q.answer = Some(body.answer.clone());
            q.answer_text = words;
        },
        None => {},
    }
    match grant {
        Some(path) => {
            s.outside_grants.push(path);
        },
        None => {},
    }
    s.set_state(State::Working, now);
    Ok(())
}

/// A yes to the daemon's own question grants the folder it named, once, and no other answer
/// grants anything.
pub proof fn a_yes_grants_once(s: Session, body: AnswerBody, now: Moment, after: Session)
    requires
        answered(s, body, now, after),
    ensures
        body.answer@ != "outside-allow"@ ==> after.outside_grants@ == s.outside_grants@,
        s.outside_ask is None || s.outside_ask->Some_0.id != body.ask ==> after.outside_grants@
            == s.outside_grants@,
        body.answer@ == "outside-allow"@ && s.outside_ask is Some && s.outside_ask->Some_0.id
            == body.ask && !s.may_reach(s.outside_ask->Some_0.path@) ==> after.outside_grants@
            == s.outside_grants@.push(s.outside_ask->Some_0.path),
        after.state is Working,
        after.had_a_turn && after.interrupted,
        after.id == s.id && after.workspace == s.workspace && after.branch == s.branch
            && after.outside_ask == s.outside_ask && after.pass == s.pass,
{
}

/// An answer reaches no folder but the one the daemon's own question named, and only
/// where that question is the one being answered with a yes: an agent cannot grant
/// itself anything by writing the same words into a question of its own.
pub proof fn only_the_daemons_own_question_grants(
    s: Session,
    body: AnswerBody,
    now: Moment,
    after: Session,
    path: Seq<char>,
)
    requires
        answered(s, body, now, after),
    ensures
        s.may_reach(path) ==> after.may_reach(path),
        after.may_reach(path) && !s.may_reach(path) ==> (s.outside_ask matches Some(
            a,
        ) && a.id == body.ask && body.answer@ == OUTSIDE_ALLOW@ && is_under(path, a.path@)),
{
    if s.may_reach(path) {
        let k = choose|k: int|
            0 <= k < s.outside_grants@.len() && is_under(path, #[trigger] s.outside_grants@[k]@);
        assert(after.outside_grants@[k] == s.outside_grants@[k]);
    }
    if after.may_reach(path) && !s.may_reach(path) {
        let k = choose|k: int|
            0 <= k < after.outside_grants@.len() && is_under(
                path,
                #[trigger] after.outside_grants@[k]@,
            );
        if k < s.outside_grants@.len() {
            assert(after.outside_grants@[k] == s.outside_grants@[k]);
        }
    }
}

/// What an agent waits for is what you answered: the next look at the question finds
/// the answer and the words.
pub proof fn an_answer_releases_the_wait(
    list: Seq<Session>,
    id: SessionId,
    body: AnswerBody,
    now: Moment,
    after: Seq<Session>,
)
    requires
        answer_refusal(list, id, body) is None,
        only_changed(list, after, seat(list, id)),
        answered(list[seat(list, id)], body, now, after[seat(list, id)]),
    ensures
        seat(after, id) == seat(list, id),
        after[seat(after, id)].interaction matches Some(q) && q.id == body.ask && opt_text(q.answer)
            == Some(body.answer@) && opt_text(q.answer_text) == ink(opt_text(body.text)),
        !is_asking(after[seat(after, id)]),
        after[seat(after, id)].state is Working,
{
    lemma_seat_found(list, id);
    let i = seat(list, id);
    assert forall|k: int| 0 <= k < i implies (#[trigger] after[k]).id != id by {
        assert(list[k].id != id);
    }
    lemma_seat(after, id, i);
}

// ---------------------------------------------------------------------------
// Reaching outside the worktree
// ---------------------------------------------------------------------------

pub struct OutsideBody {
    /// What the agent was refused.
    pub path: String,
}

/// What asking for a folder came to.
#[derive(Debug, Clone, Copy, PartialEq, Eq, Structural)]
pub enum Outside {
    /// An earlier yes covers it.
    Allowed,
    /// The question was put to you, under this id.
    Asked(SessionId),
}

/// The folder that is asked about.
pub open spec fn asked_folder(body: OutsideBody) -> Seq<char> {
    folded(trimmed(body.path@))
}

/// Why a folder is not asked about, if it is not.
pub open spec fn outside_refusal(
    list: Seq<Session>,
    keys: Keys,
    id: SessionId,
    body: OutsideBody,
) -> Option<Said> {
    if ask_key_refusal(list, keys, id) is Some {
        ask_key_refusal(list, keys, id)
    } else if trimmed(body.path@).len() == 0 {
        Some(Said::Failed("name the path you were refused"@))
    } else if !is_absolute(trimmed(body.path@)) {
        Some(
            Said::Failed(
                trimmed(body.path@)
                    + " is not an absolute path — ask about the one the refusal named"@,
            ),
        )
    } else if !seated(list, id) {
        Some(unknown_session(id))
    } else if !list[seat(list, id)].may_reach(asked_folder(body)) && is_asking(
        list[seat(list, id)],
    ) {
        Some(already_asking(id))
    } else {
        None
    }
}

/// A folder is asked about, or found to be allowed, wherever it is named by an absolute path
/// and its session asks nothing else; and one that is allowed is answered even while it does.
pub proof fn a_named_folder_is_asked_about(
    list: Seq<Session>,
    keys: Keys,
    id: SessionId,
    body: OutsideBody,
    i: int,
)
    requires
        0 <= i < list.len(),
        list[i].id == id,
        forall|k: int| 0 <= k < i ==> (#[trigger] list[k]).id != id,
        ask_key_refusal(list, keys, id) is None,
    ensures
        outside_refusal(list, keys, id, body) is None <==> trimmed(body.path@).len() > 0 && trimmed(
            body.path@,
        )[0] == '/' && (list[i].may_reach(asked_folder(body)) || list[i].interaction is None
            || list[i].interaction->Some_0.answer is Some),
{
    lemma_seat(list, id, i);
}

/// The daemon's own question about a folder.
pub open spec fn is_outside_question(
    q: Interaction,
    ask_id: SessionId,
    path: Seq<char>,
    now: Moment,
) -> bool {
    &&& q.id == ask_id
    &&& q.thread_id is None
    &&& q.question@ == "This session works in one worktree, and it wants to run git in "@ + path
        + ". Allow that folder for the rest of this session?"@
    &&& opt_text(q.detail) == Some(
        "Changing another checkout from here can move a branch the app is tracking, or leave main on a branch nothing recorded."@,
    )
    &&& q.options@.len() == 2
    &&& q.options@[0].value@ == OUTSIDE_ALLOW@
    &&& q.options@[0].label@ == "Allow it"@
    &&& q.options@[0].sub@ == "this folder and below, until the session ends"@
    &&& !q.options@[0].free
    &&& q.options@[1].value@ == OUTSIDE_NO@
    &&& q.options@[1].label@ == "Keep it in its worktree"@
    &&& q.options@[1].sub@ == "the guard goes on refusing"@
    &&& !q.options@[1].free
    &&& q.asked_at == now
    &&& q.answer is None
    &&& q.answer_text is None
}

fn outside_question(ask_id: SessionId, path: &str, now: Moment) -> (q: Interaction)
    ensures
        is_outside_question(q, ask_id, path@, now),
{
    let mut options: Vec<InteractionOption> = Vec::new();
    options.push(
        InteractionOption {
            value: OUTSIDE_ALLOW.to_owned(),
            label: "Allow it".to_owned(),
            sub: "this folder and below, until the session ends".to_owned(),
            free: false,
        },
    );
    options.push(
        InteractionOption {
            value: OUTSIDE_NO.to_owned(),
            label: "Keep it in its worktree".to_owned(),
            sub: "the guard goes on refusing".to_owned(),
            free: false,
        },
    );
    Interaction {
        id: ask_id,
        thread_id: None,
        question: cat3(
            "This session works in one worktree, and it wants to run git in ",
            path,
            ". Allow that folder for the rest of this session?",
        ),
        detail: Some(
            "Changing another checkout from here can move a branch the app is tracking, or leave main on a branch nothing recorded.".to_owned(),
        ),
        options,
        asked_at: now,
        answer: None,
        answer_text: None,
    }
}

/// Ask whether a session may run git outside its own worktree. One question per
/// folder: a yes covers the path it names and what is under it.
pub fn allow_outside(
    list: &mut Vec<Session>,
    keys: &Keys,
    id: SessionId,
    body: &OutsideBody,
    ask_id: SessionId,
    now: Moment,
) -> (r: Result<Outside, ApiError>)
    ensures
        same_ids(old(list)@, final(list)@),
        match outside_refusal(old(list)@, *keys, id, *body) {
            Some(why) => r is Err && r->Err_0@ == why && final(list)@ == old(list)@,
            None => {
                let i = seat(old(list)@, id);
                let before = old(list)@[i];
                if before.may_reach(asked_folder(*body)) {
                    r == Ok::<Outside, ApiError>(Outside::Allowed) && final(list)@ == old(list)@
                } else {
                    let after = final(list)@[i];
                    &&& r == Ok::<Outside, ApiError>(Outside::Asked(ask_id))
                    &&& only_changed(old(list)@, final(list)@, i)
                    &&& after.interaction is Some
                    &&& is_outside_question(
                        after.interaction->Some_0,
                        ask_id,
                        asked_folder(*body),
                        now,
                    )
                    &&& after.outside_ask is Some
                    &&& after.outside_ask->Some_0.id == ask_id
                    &&& after.outside_ask->Some_0.path@ == asked_folder(*body)
                    &&& after == blocked_on(
                        (Session { outside_ask: after.outside_ask, ..before }),
                        after.interaction->Some_0,
                        now,
                    )
                }
            },
        },
{
    match ask_token_ok(list, keys, id) {
        Err(e) => {
            return Err(e);
        },
        Ok(()) => {},
    }
    let raw: String = trim(body.path.as_str());
    if raw.as_str().is_empty() {
        return Err(refuse("name the path you were refused".to_owned()));
    }
    if !absolute(raw.as_str()) {
        return Err(
            refuse(
                cat2(
                    raw.as_str(),
                    " is not an absolute path — ask about the one the refusal named",
                ),
            ),
        );
    }
    let path: String = fold(raw.as_str());
    let i: usize = match locate(list, id) {
        Some(i) => i,
        None => {
            return Err(no_such_session(id));
        },
    };
    if list[i].outside_granted(path.as_str()) {
        return Ok(Outside::Allowed);
    }
    let asking: bool = match &list[i].interaction {
        Some(open) => open.answer.is_none(),
        None => false,
    };
    if asking {
        return Err(busy_asking(id));
    }
    let question: Interaction = outside_question(ask_id, path.as_str(), now);
    let s: &mut Session = &mut list[i];
    s.interaction = Some(question);
    s.outside_ask = Some(OutsideAsk { id: ask_id, path });
    s.set_state(State::YourTurn { since: now, reason: TurnReason::AskedAQuestion }, now);
    Ok(Outside::Asked(ask_id))
}

/// The folders a session has been let out to.
pub fn outside_allowed(list: &Vec<Session>, keys: &Keys, id: SessionId) -> (r: Result<
    Vec<String>,
    ApiError,
>)
    ensures
        match ask_key_refusal(list@, *keys, id) {
            Some(why) => r is Err && r->Err_0@ == why,
            None => if seated(list@, id) {
                r is Ok && texts(r->Ok_0@) == texts(list@[seat(list@, id)].outside_grants@)
            } else {
                r is Err && r->Err_0@ == unknown_session(id)
            },
        },
{
    match ask_token_ok(list, keys, id) {
        Err(e) => {
            return Err(e);
        },
        Ok(()) => {},
    }
    match locate(list, id) {
        Some(i) => Ok(copies(&list[i].outside_grants)),
        None => Err(no_such_session(id)),
    }
}

/// Asked and answered with a yes, a folder is one the session may reach: the answer to
/// the question that [`allow_outside`] leaves on the session grants what it named.
pub proof fn a_yes_grants_the_folder_asked_about(
    before: Session,
    asked: Session,
    q: Interaction,
    folder: Seq<char>,
    body: AnswerBody,
    now: Moment,
    later: Moment,
    after: Session,
)
    requires
        asked.interaction == Some(q),
        asked == blocked_on((Session { outside_ask: asked.outside_ask, ..before }), q, now),
        asked.outside_ask is Some,
        asked.outside_ask->Some_0.id == q.id,
        asked.outside_ask->Some_0.path@ == folder,
        body.ask == q.id,
        body.answer@ == OUTSIDE_ALLOW@,
        answered(asked, body, later, after),
    ensures
        after.may_reach(folder),
{
    if asked.may_reach(folder) {
        let k = choose|k: int|
            0 <= k < asked.outside_grants@.len() && is_under(
                folder,
                #[trigger] asked.outside_grants@[k]@,
            );
        assert(after.outside_grants@[k] == asked.outside_grants@[k]);
    } else {
        let n = asked.outside_grants@.len() as int;
        let c = crate::paths::components(folder);
        assert(c.subrange(0, c.len() as int) =~= c);
        assert(after.outside_grants@[n]@ == folder);
    }
}

// ---------------------------------------------------------------------------
// Typing at a session
// ---------------------------------------------------------------------------

/// What a session is called where it has to be called something.
pub open spec fn row_name(s: Session) -> Seq<char> {
    match s.called() {
        Some(l) => l,
        None => s.workspace@,
    }
}

fn row_name_of(s: &Session) -> (r: String)
    ensures
        r@ == row_name(*s),
{
    match s.label() {
        Some(l) => l.to_owned(),
        None => s.workspace.clone(),
    }
}

/// Whether a session's terminal is there and running.
pub open spec fn has_terminal(s: Session) -> bool {
    s.pty matches Some(p) && p.alive
}

pub fn live_terminal(s: &Session) -> (r: Option<Pty>)
    ensures
        r == if has_terminal(*s) {
            s.pty
        } else {
            None
        },
{
    match s.pty {
        Some(p) => if p.alive {
            Some(p)
        } else {
            None
        },
        None => None,
    }
}

/// Why a keystroke at a session would mean something else than a prompt, if it would.
pub open spec fn typing_refusal(list: Seq<Session>, id: SessionId) -> Option<Said> {
    if !seated(list, id) {
        Some(unknown_session(id))
    } else {
        let s = list[seat(list, id)];
        if !has_terminal(s) {
            Some(Said::Failed(row_name(s) + " is not running — resume it first"@))
        } else {
            match s.state {
                State::Starting => Some(Said::Failed(row_name(s) + " is still starting"@)),
                State::Working => Some(
                    Said::Failed(row_name(s) + " is mid-turn; wait for it to finish"@),
                ),
                State::YourTurn { reason: TurnReason::NeedsPermission, .. } => Some(
                    Said::Failed(
                        row_name(s) + " is waiting on a permission prompt; answer that first"@,
                    ),
                ),
                State::YourTurn { reason: TurnReason::AskedAQuestion, .. } => Some(
                    Said::Failed(row_name(s) + " is asking you something; answer that first"@),
                ),
                _ => None,
            }
        }
    }
}

/// The terminal to type an ordinary user turn into, or why a keystroke there would
/// mean something else.
pub fn type_user_turn(list: &Vec<Session>, id: SessionId) -> (r: Result<Pty, ApiError>)
    ensures
        match typing_refusal(list@, id) {
            Some(why) => r is Err && r->Err_0@ == why,
            None => r == Ok::<Pty, ApiError>(list@[seat(list@, id)].pty->Some_0),
        },
{
    let i: usize = match locate(list, id) {
        Some(i) => i,
        None => {
            return Err(no_such_session(id));
        },
    };
    let s: &Session = &list[i];
    let name: String = row_name_of(s);
    let pty: Pty = match live_terminal(s) {
        Some(p) => p,
        None => {
            return Err(refuse(cat2(name.as_str(), " is not running — resume it first")));
        },
    };
    match &s.state {
        State::Starting => Err(refuse(cat2(name.as_str(), " is still starting"))),
        State::Working => Err(refuse(cat2(name.as_str(), " is mid-turn; wait for it to finish"))),
        State::YourTurn { reason, .. } => match reason {
            TurnReason::NeedsPermission => Err(
                refuse(
                    cat2(
                        name.as_str(),
                        " is waiting on a permission prompt; answer that first",
                    ),
                ),
            ),
            TurnReason::AskedAQuestion => Err(
                refuse(cat2(name.as_str(), " is asking you something; answer that first")),
            ),
            _ => Ok(pty),
        },
        _ => Ok(pty),
    }
}

/// A session that is typed at has a running terminal, is in no turn, and is showing
/// neither a question nor a permission prompt.
pub proof fn typing_answers_nothing(list: Seq<Session>, id: SessionId)
    requires
        typing_refusal(list, id) is None,
    ensures
        seated(list, id),
        has_terminal(list[seat(list, id)]),
        !list[seat(list, id)].state.busy(),
        !(list[seat(list, id)].state matches State::YourTurn { reason, .. } && (reason
            == TurnReason::AskedAQuestion || reason == TurnReason::NeedsPermission)),
{
}

/// A session is typed at wherever its terminal runs and a keystroke means a prompt: not while
/// it starts or works, and not while it waits for permission or for an answer.
pub proof fn a_session_at_its_prompt_is_typed_at(list: Seq<Session>, id: SessionId, i: int)
    requires
        0 <= i < list.len(),
        list[i].id == id,
        forall|k: int| 0 <= k < i ==> (#[trigger] list[k]).id != id,
    ensures
        typing_refusal(list, id) is None <==> list[i].pty is Some && list[i].pty->Some_0.alive && !(
        list[i].state is Starting) && !(list[i].state is Working) && !(list[i].state
            matches State::YourTurn { reason, .. } && (reason == TurnReason::NeedsPermission
            || reason == TurnReason::AskedAQuestion)),
{
    lemma_seat(list, id, i);
}

pub struct TellBody {
    pub text: String,
}

/// The most a prompt may take, in bytes.
pub const TELL_MAX: usize = 8192;

/// Why a text is not handed to a session, if it is not.
pub open spec fn tell_refusal(list: Seq<Session>, id: SessionId, body: TellBody) -> Option<Said> {
    let text = without_trailing(body.text@);
    if trimmed(text).len() == 0 {
        Some(Said::Failed("nothing to send"@))
    } else if byte_len(text) > TELL_MAX {
        Some(
            Said::Failed(
                "that is "@ + decimal((byte_len(text) / 1024) as nat)
                    + " KB — send a selection or the last lines, not the whole buffer"@,
            ),
        )
    } else {
        typing_refusal(list, id)
    }
}

/// A text is handed to a session wherever it has words, takes no more than eight kilobytes,
/// and could be typed there.
pub proof fn a_text_is_handed_over_where_it_can_be_typed(
    list: Seq<Session>,
    id: SessionId,
    body: TellBody,
)
    ensures
        tell_refusal(list, id, body) is None <==> trimmed(without_trailing(body.text@)).len() > 0
            && byte_len(without_trailing(body.text@)) <= 8 * 1024 && typing_refusal(list, id) is None,
{
}

/// The text to type at a session and the terminal to type it into.
pub fn tell_session(list: &Vec<Session>, id: SessionId, body: &TellBody) -> (r: Result<
    (Pty, String),
    ApiError,
>)
    ensures
        match tell_refusal(list@, id, *body) {
            Some(why) => r is Err && r->Err_0@ == why,
            None => r is Ok && r->Ok_0.0 == list@[seat(list@, id)].pty->Some_0 && r->Ok_0.1@
                == without_trailing(body.text@),
        },
{
    let text: String = trim_end(body.text.as_str());
    let words: String = trim(text.as_str());
    if words.as_str().is_empty() {
        return Err(refuse("nothing to send".to_owned()));
    }
    let size: usize = bytes(text.as_str());
    if size > TELL_MAX {
        let kb: String = number((size / 1024) as u64);
        return Err(
            refuse(
                cat3(
                    "that is ",
                    kb.as_str(),
                    " KB — send a selection or the last lines, not the whole buffer",
                ),
            ),
        );
    }
    match type_user_turn(list, id) {
        Ok(pty) => Ok((pty, text)),
        Err(e) => Err(e),
    }
}

pub struct NudgeBody {
    /// What to type. Defaults to `continue`.
    pub text: Option<String>,
}

/// Whether a session can be nudged at all: it runs, and it ever had a turn.
pub open spec fn has_conversation(s: Session) -> bool {
    has_terminal(s) && s.had_a_turn
}

/// Whether a session was cut off mid-turn and has not been prompted since.
pub open spec fn is_nudged(s: Session) -> bool {
    has_conversation(s) && s.interrupted && (s.state matches State::YourTurn {
        reason: TurnReason::Ready,
        ..
    })
}

/// Whether a session would take a keystroke as an answer.
pub open spec fn is_held(s: Session) -> bool {
    has_conversation(s) && (s.state matches State::YourTurn { reason, .. } && (reason
        == TurnReason::NeedsPermission || reason == TurnReason::AskedAQuestion))
}

pub open spec fn nudged_in(list: Seq<Session>) -> Seq<(SessionId, Pty)>
    decreases list.len(),
{
    if list.len() == 0 {
        Seq::empty()
    } else if is_nudged(list.last()) {
        nudged_in(list.drop_last()).push((list.last().id, list.last().pty->Some_0))
    } else {
        nudged_in(list.drop_last())
    }
}

pub open spec fn held_in(list: Seq<Session>) -> Seq<Seq<char>>
    decreases list.len(),
{
    if list.len() == 0 {
        Seq::empty()
    } else if is_held(list.last()) {
        held_in(list.drop_last()).push(row_name(list.last()))
    } else {
        held_in(list.drop_last())
    }
}

/// What pressing the nudge does: the word, who is told it, and who would have taken it
/// for an answer.
pub struct Nudge {
    pub text: String,
    pub targets: Vec<(SessionId, Pty)>,
    pub held: Vec<String>,
}

/// Type one word into every session that was cut off mid-turn and sits at its prompt. A
/// session showing a permission prompt or a question is named instead.
pub fn nudge_sessions(list: &Vec<Session>, body: &NudgeBody) -> (r: Nudge)
    ensures
        r.text@ == nudge_text(opt_text(body.text)),
        r.targets@ == nudged_in(list@),
        texts(r.held@) == held_in(list@),
{
    let text: String = match ink_of(&body.text) {
        Some(t) => t,
        None => "continue".to_owned(),
    };
    let mut targets: Vec<(SessionId, Pty)> = Vec::new();
    let mut held: Vec<String> = Vec::new();
    let mut i: usize = 0;
    proof {
        assert(texts(held@) =~= held_in(list@.take(0)));
    }
    while i < list.len()
        invariant
            i <= list@.len(),
            targets@ == nudged_in(list@.take(i as int)),
            texts(held@) == held_in(list@.take(i as int)),
        decreases list@.len() - i,
    {
        proof {
            assert(list@.take(i + 1).drop_last() =~= list@.take(i as int));
            assert(list@.take(i + 1).last() == list@[i as int]);
        }
        let s: &Session = &list[i];
        match live_terminal(s) {
            Some(pty) => {
                if s.had_a_turn {
                    match &s.state {
                        State::YourTurn { reason, .. } => match reason {
                            TurnReason::Ready => {
                                if s.interrupted {
                                    targets.push((s.id, pty));
                                }
                            },
                            TurnReason::NeedsPermission | TurnReason::AskedAQuestion => {
                                let ghost before = held@;
                                held.push(row_name_of(s));
                                proof {
                                    assert(texts(held@) =~= texts(before).push(row_name(*s)));
                                }
                            },
                            _ => {},
                        },
                        _ => {},
                    }
                }
            },
            None => {},
        }
        i += 1;
    }
    proof {
        assert(list@.take(i as int) =~= list@);
    }
    Nudge { text, targets, held }
}

/// Whoever is nudged could as well have been typed at by hand, and nobody who is held
/// is nudged.
pub proof fn a_nudge_is_a_safe_keystroke(list: Seq<Session>, id: SessionId)
    requires
        seated(list, id),
        is_nudged(list[seat(list, id)]),
    ensures
        typing_refusal(list, id) is None,
        !is_held(list[seat(list, id)]),
{
}

/// Everybody who was cut off mid-turn and sits at an empty prompt is nudged, at their own
/// terminal, and nobody else is; everybody whose prompt would take it for an answer is named.
pub proof fn who_was_cut_off_is_nudged(list: Seq<Session>, s: Session)
    ensures
        nudged_in(Seq::empty()).len() == 0,
        held_in(Seq::empty()).len() == 0,
        nudged_in(list.push(s)) == if s.pty is Some && s.pty->Some_0.alive && s.had_a_turn
            && s.interrupted && (s.state matches State::YourTurn { reason, .. } && reason
            == TurnReason::Ready) {
            nudged_in(list).push((s.id, s.pty->Some_0))
        } else {
            nudged_in(list)
        },
        held_in(list.push(s)) == if s.pty is Some && s.pty->Some_0.alive && s.had_a_turn && (s.state
            matches State::YourTurn { reason, .. } && (reason == TurnReason::NeedsPermission
            || reason == TurnReason::AskedAQuestion)) {
            held_in(list).push(row_name(s))
        } else {
            held_in(list)
        },
        s.name is Some ==> row_name(s) == s.name->Some_0@,
        s.name is None && s.title is Some ==> row_name(s) == s.title->Some_0@,
        s.name is None && s.title is None ==> row_name(s) == s.workspace@,
{
    assert(list.push(s).drop_last() =~= list);
}

/// What is typed at whoever is nudged.
pub open spec fn nudge_text(asked: Option<Seq<char>>) -> Seq<char> {
    match ink(asked) {
        Some(t) => t,
        None => "continue"@,
    }
}

/// Whoever is nudged is typed what you wrote, or told to go on where you wrote nothing.
pub proof fn a_nudge_says_what_you_wrote(asked: Seq<char>)
    ensures
        trimmed(asked).len() > 0 ==> nudge_text(Some(asked)) == trimmed(asked),
        trimmed(asked).len() == 0 ==> nudge_text(Some(asked)) == "continue"@,
        nudge_text(None) == "continue"@,
{
}

/// The daemon's own question names the folder it is about, is open, and can be answered in two
/// ways without a word: the one grants the folder and the other does not.
pub proof fn a_folder_is_asked_about_by_name(
    q: Interaction,
    ask_id: SessionId,
    path: Seq<char>,
    now: Moment,
)
    requires
        is_outside_question(q, ask_id, path, now),
    ensures
        q.id == ask_id && q.asked_at == now && q.answer is None && q.answer_text is None,
        holds_text(q.question@, path),
        q.options@.len() == 2,
        q.options@[0].value@ == "outside-allow"@,
        q.options@[1].value@ == "outside-no"@ && "outside-no"@ != "outside-allow"@,
        !q.options@[0].free && !q.options@[1].free,
{
    let n = "This session works in one worktree, and it wants to run git in "@.len() as int;
    assert(q.question@.subrange(n, n + path.len()) =~= path);
    assert(stands_at(q.question@, n, path));
    reveal_strlit("outside-allow");
    reveal_strlit("outside-no");
    assert("outside-allow"@.len() == 13);
}

/// A session that is not there is missed, one that is asking something else is waited for, and
/// everything else that is asked of it and refused is refused for good. Whoever has no key is
/// refused before anything else is looked at.
pub proof fn a_session_is_refused_by_kind(
    list: Seq<Session>,
    keys: Keys,
    id: SessionId,
    ask: AskBody,
    ask_id: SessionId,
    answer: AnswerBody,
    outside: OutsideBody,
    tell: TellBody,
)
    ensures
        ask_key_refusal(list, keys, id) matches Some(w) ==> (w.status() == 404 <==> !seated(list, id))
            && (w.status() == 400 <==> seated(list, id)),
        ask_key_refusal(list, keys, id) is Some ==> ask_refusal(list, keys, id, ask)
            == ask_key_refusal(list, keys, id) && wait_refusal(list, keys, id, ask_id)
            == ask_key_refusal(list, keys, id) && outside_refusal(list, keys, id, outside)
            == ask_key_refusal(list, keys, id),
        ask_key_refusal(list, keys, id) is None ==> {
            &&& ask_refusal(list, keys, id, ask) matches Some(w) ==> (w.status() == 409 ==> seated(
                list,
                id,
            ) && is_asking(list[seat(list, id)])) && (w.status() == 404 ==> !seated(list, id))
            &&& !seated(list, id) ==> ask_refusal(list, keys, id, ask) is Some
            &&& wait_refusal(list, keys, id, ask_id) matches Some(w) ==> (w.status() == 404
                <==> !seated(list, id)) && (w.status() == 400 <==> seated(list, id))
            &&& !seated(list, id) ==> wait_refusal(list, keys, id, ask_id) is Some
            &&& outside_refusal(list, keys, id, outside) matches Some(w) ==> (w.status() == 409
                ==> seated(list, id) && is_asking(list[seat(list, id)])) && (w.status() == 404
                ==> !seated(list, id))
            &&& !seated(list, id) ==> outside_refusal(list, keys, id, outside) is Some
        },
        answer_refusal(list, id, answer) matches Some(w) ==> (w.status() == 404 <==> !seated(
            list,
            id,
        )) && (w.status() == 400 <==> seated(list, id)),
        typing_refusal(list, id) matches Some(w) ==> (w.status() == 404 <==> !seated(list, id)) && (
        w.status() == 400 <==> seated(list, id)),
        tell_refusal(list, id, tell) matches Some(w) ==> (w.status() == 404 ==> !seated(list, id))
            && w.status() != 409,
        !seated(list, id) ==> answer_refusal(list, id, answer) is Some && typing_refusal(list, id)
            is Some,
{
}

/// A run without its key is refused for good.
pub proof fn a_run_without_its_key_is_refused_for_good(
    expected: Option<Seq<char>>,
    keys: Keys,
    pr: u64,
)
    ensures
        proposal_key_refusal(expected, keys, pr) matches Some(w) ==> w.status() == 400,
{
}

} // verus!
