use orchd::api::door::{guard, Door, Knock, Method, Verdict};
use orchd::api::talk::{
    allow_outside, answer, ask, ask_token_ok, ask_wait, nudge_sessions, outside_allowed,
    proposal_token_ok, tell_session, type_user_turn, Keys, Outside, Poll, OUTSIDE_ALLOW,
    OUTSIDE_NO, TELL_MAX,
};
use orchd::api::{AnswerBody, AskBody, NudgeBody, OutsideBody, TellBody};
use orchd::model::{InteractionOption, Pty, Session, SessionId, State, TurnReason};

const ID: SessionId = 0x0000_0001_0000_4000_8000_0000_0000_0000;
const ASK: SessionId = 0x0000_0002_0000_4000_8000_0000_0000_0000;
const ID_TEXT: &str = "00000001-0000-4000-8000-000000000000";
const ASK_TEXT: &str = "00000002-0000-4000-8000-000000000000";

fn session(id: SessionId) -> Session {
    let mut s = Session::new(
        id,
        "w".to_string(),
        "/w".to_string(),
        None,
        10,
        format!("key-{id}"),
    );
    s.pty = Some(Pty {
        handle: 3,
        alive: true,
    });
    s
}

fn keys(ask: Option<&str>, token: Option<&str>) -> Keys {
    Keys {
        app_token: "app".to_string(),
        ask: ask.map(str::to_string),
        token: token.map(str::to_string),
    }
}

fn mine() -> Keys {
    keys(Some(&format!("key-{ID}")), None)
}

fn option(value: &str, free: bool) -> InteractionOption {
    InteractionOption {
        value: value.to_string(),
        label: value.to_uppercase(),
        sub: String::new(),
        free,
    }
}

fn body() -> AskBody {
    AskBody {
        question: "Which?".to_string(),
        thread_id: Some("t".to_string()),
        detail: None,
        options: vec![option("a", false), option("b", true)],
    }
}

fn answer_with(value: &str, text: Option<&str>) -> AnswerBody {
    AnswerBody {
        ask: ASK,
        answer: value.to_string(),
        text: text.map(str::to_string),
    }
}

fn words<T: std::fmt::Debug>(r: Result<T, orchd::api::ApiError>) -> (u16, String) {
    let e = r.unwrap_err();
    (e.status(), e.message().to_string())
}

#[test]
fn a_session_is_opened_by_its_own_token_or_the_apps() {
    let list = vec![session(ID), session(ASK)];
    assert!(ask_token_ok(&list, &mine(), ID).is_ok());
    assert!(ask_token_ok(&list, &keys(None, Some("app")), ID).is_ok());
    assert!(ask_token_ok(&list, &keys(Some("app"), Some("x")), ID).is_ok());
    let bad = (400, format!("bad ask token for session {ID_TEXT}"));
    assert_eq!(words(ask_token_ok(&list, &keys(None, None), ID)), bad);
    assert_eq!(
        words(ask_token_ok(&list, &keys(Some(&format!("key-{ASK}")), None), ID)),
        bad
    );
    // The ask header is what counts where both are there.
    assert_eq!(words(ask_token_ok(&list, &keys(Some("x"), Some("app")), ID)), bad);
    assert_eq!(
        words(ask_token_ok(&vec![], &mine(), ID)),
        (404, format!("no such session {ID_TEXT}"))
    );
}

#[test]
fn a_proposals_token_opens_its_own_pr() {
    let run = keys(None, Some("minted"));
    assert!(proposal_token_ok(Some("minted"), &run, 12).is_ok());
    assert!(proposal_token_ok(None, &keys(None, Some("app")), 12).is_ok());
    let bad = (400, "bad proposals token for PR #12".to_string());
    assert_eq!(words(proposal_token_ok(Some("other"), &run, 12)), bad);
    assert_eq!(words(proposal_token_ok(None, &run, 12)), bad);
    assert_eq!(words(proposal_token_ok(Some(""), &keys(None, None), 12)), bad);
    // It is not read off the ask header.
    assert_eq!(
        words(proposal_token_ok(Some("minted"), &keys(Some("minted"), None), 12)),
        bad
    );
}

#[test]
fn a_proposals_token_opens_no_session_and_no_change() {
    let list = vec![session(ID)];
    let run = keys(None, Some("minted"));
    assert!(proposal_token_ok(Some("minted"), &run, 12).is_ok());
    assert!(ask_token_ok(&list, &run, ID).is_err());
    assert!(proposal_token_ok(Some("another"), &run, 13).is_err());
    let door = Door {
        port: 7777,
        token: "app".to_string(),
        host_origin: None,
    };
    let knock = Knock {
        method: Method::Other,
        path: "/api/session".to_string(),
        host: Some("localhost:7777".to_string()),
        origin: Some("http://localhost:7777".to_string()),
        token: Some("minted".to_string()),
    };
    assert!(matches!(
        guard(&door, &knock),
        Verdict::Turned { status: 401, .. }
    ));
}

#[test]
fn a_question_blocks_its_session_until_it_is_answered() {
    let mut list = vec![session(ID)];
    assert_eq!(ask(&mut list, &mine(), ID, body(), ASK, 50).ok(), Some(ASK));
    assert!(matches!(
        list[0].state,
        State::YourTurn {
            since: 50,
            reason: TurnReason::AskedAQuestion
        }
    ));
    assert!(matches!(
        ask_wait(&list, &mine(), ID, ASK),
        Ok(Poll::Pending)
    ));
    assert_eq!(
        words(ask(&mut list, &mine(), ID, body(), 9, 60)),
        (409, format!("session {ID_TEXT} is already asking something else"))
    );
    assert!(answer(&mut list, ID, &answer_with("b", Some("  do it ")), 70).is_ok());
    assert!(matches!(list[0].state, State::Working));
    match ask_wait(&list, &mine(), ID, ASK) {
        Ok(Poll::Answered { answer, text }) => {
            assert_eq!(answer, "b");
            assert_eq!(text.as_deref(), Some("do it"));
        }
        other => panic!("{other:?}"),
    }
    assert_eq!(
        words(ask_wait(&list, &mine(), ID, ID)),
        (
            400,
            format!("question {ID_TEXT} is no longer open on session {ID_TEXT}")
        )
    );
    // Answered, so the next question may come.
    assert!(ask(&mut list, &mine(), ID, body(), 9, 80).is_ok());
}

#[test]
fn a_question_needs_words_and_something_to_press() {
    let mut list = vec![session(ID)];
    let mut blank = body();
    blank.question = " \n".to_string();
    assert_eq!(
        words(ask(&mut list, &mine(), ID, blank, ASK, 1)),
        (400, "a question with no words".to_string())
    );
    let mut none = body();
    none.options = vec![];
    assert_eq!(
        words(ask(&mut list, &mine(), ID, none, ASK, 1)),
        (
            400,
            "a question with no options: the overlay renders buttons, not a prompt".to_string()
        )
    );
    assert_eq!(
        words(ask(&mut vec![], &keys(Some("app"), None), ID, body(), ASK, 1)).0,
        404
    );
}

#[test]
fn only_what_was_offered_is_an_answer() {
    let mut list = vec![session(ID)];
    assert_eq!(
        words(answer(&mut list, ID, &answer_with("a", None), 1)),
        (400, format!("session {ID_TEXT} is not asking {ASK_TEXT}"))
    );
    ask(&mut list, &mine(), ID, body(), ASK, 1).unwrap();
    for (value, text, why) in [
        ("c", None, "c is not one of the options"),
        (
            "b",
            Some("  "),
            "\"B\" is the option that asks for words, and none were written",
        ),
        ("a", Some("w"), "\"A\" takes no words"),
    ] {
        assert_eq!(
            words(answer(&mut list, ID, &answer_with(value, text), 2)),
            (400, why.to_string())
        );
        assert!(matches!(
            ask_wait(&list, &mine(), ID, ASK),
            Ok(Poll::Pending)
        ));
    }
    assert_eq!(words(answer(&mut list, 7, &answer_with("a", None), 2)).0, 404);
    assert!(answer(&mut list, ID, &answer_with("a", Some(" ")), 3).is_ok());
}

#[test]
fn a_folder_is_asked_about_once_and_a_yes_covers_what_is_under_it() {
    let mut list = vec![session(ID)];
    let other = OutsideBody {
        path: " /repo/x/../other ".to_string(),
    };
    assert_eq!(
        allow_outside(&mut list, &mine(), ID, &other, ASK, 5).ok(),
        Some(Outside::Asked(ASK))
    );
    {
        let q = list[0].interaction.as_ref().unwrap();
        assert_eq!(
            q.question,
            "This session works in one worktree, and it wants to run git in /repo/other. \
             Allow that folder for the rest of this session?"
        );
        assert_eq!(
            q.detail.as_deref(),
            Some(
                "Changing another checkout from here can move a branch the app is tracking, \
                 or leave main on a branch nothing recorded."
            )
        );
        let shown: Vec<(&str, &str, &str)> = q
            .options
            .iter()
            .map(|o| (o.value.as_str(), o.label.as_str(), o.sub.as_str()))
            .collect();
        assert_eq!(
            shown,
            vec![
                (
                    OUTSIDE_ALLOW,
                    "Allow it",
                    "this folder and below, until the session ends"
                ),
                (
                    OUTSIDE_NO,
                    "Keep it in its worktree",
                    "the guard goes on refusing"
                ),
            ]
        );
    }
    assert_eq!(
        words(allow_outside(&mut list, &mine(), ID, &other, 9, 6)).0,
        409
    );
    assert!(outside_allowed(&list, &mine(), ID).unwrap().is_empty());
    answer(&mut list, ID, &answer_with(OUTSIDE_ALLOW, None), 7).unwrap();
    assert_eq!(
        outside_allowed(&list, &mine(), ID).unwrap(),
        vec!["/repo/other".to_string()]
    );
    let below = OutsideBody {
        path: "/repo/other/deep".to_string(),
    };
    assert_eq!(
        allow_outside(&mut list, &mine(), ID, &below, 9, 8).ok(),
        Some(Outside::Allowed)
    );
    let beside = OutsideBody {
        path: "/repo/otherwise".to_string(),
    };
    assert_eq!(
        allow_outside(&mut list, &mine(), ID, &beside, 9, 8).ok(),
        Some(Outside::Asked(9))
    );
}

#[test]
fn a_no_grants_nothing() {
    let mut list = vec![session(ID)];
    let other = OutsideBody {
        path: "/repo/other".to_string(),
    };
    allow_outside(&mut list, &mine(), ID, &other, ASK, 5).unwrap();
    answer(&mut list, ID, &answer_with(OUTSIDE_NO, None), 7).unwrap();
    assert!(outside_allowed(&list, &mine(), ID).unwrap().is_empty());
}

#[test]
fn an_agent_cannot_grant_itself_a_folder_with_the_same_words() {
    let mut list = vec![session(ID)];
    let other = OutsideBody {
        path: "/repo/other".to_string(),
    };
    allow_outside(&mut list, &mine(), ID, &other, 9, 5).unwrap();
    answer(
        &mut list,
        ID,
        &AnswerBody {
            ask: 9,
            answer: OUTSIDE_NO.to_string(),
            text: None,
        },
        6,
    )
    .unwrap();
    let mut own = body();
    own.options = vec![option(OUTSIDE_ALLOW, false)];
    ask(&mut list, &mine(), ID, own, ASK, 7).unwrap();
    answer(&mut list, ID, &answer_with(OUTSIDE_ALLOW, None), 8).unwrap();
    assert!(outside_allowed(&list, &mine(), ID).unwrap().is_empty());
}

#[test]
fn a_folder_is_named_in_full() {
    let mut list = vec![session(ID)];
    for (path, why) in [
        ("  ", "name the path you were refused"),
        (
            "a/b",
            "a/b is not an absolute path — ask about the one the refusal named",
        ),
    ] {
        let b = OutsideBody {
            path: path.to_string(),
        };
        assert_eq!(
            words(allow_outside(&mut list, &mine(), ID, &b, ASK, 1)),
            (400, why.to_string())
        );
    }
    assert_eq!(
        words(outside_allowed(&vec![], &keys(Some("app"), None), ID)).0,
        404
    );
}

fn in_state(state: State) -> Vec<Session> {
    let mut s = session(ID);
    s.set_state(state, 20);
    s.had_a_turn = true;
    vec![s]
}

fn turn(reason: TurnReason) -> State {
    State::YourTurn { since: 20, reason }
}

#[test]
fn a_turn_is_typed_only_at_a_prompt() {
    for (state, why) in [
        (State::Starting, Some("w is still starting")),
        (State::Working, Some("w is mid-turn; wait for it to finish")),
        (
            turn(TurnReason::NeedsPermission),
            Some("w is waiting on a permission prompt; answer that first"),
        ),
        (
            turn(TurnReason::AskedAQuestion),
            Some("w is asking you something; answer that first"),
        ),
        (turn(TurnReason::Ready), None),
        (turn(TurnReason::TurnComplete), None),
        (turn(TurnReason::Interrupted), None),
        (
            State::BuildFailing {
                summary: String::new(),
            },
            None,
        ),
    ] {
        let got = type_user_turn(&in_state(state), ID);
        match why {
            Some(w) => assert_eq!(words(got), (400, w.to_string())),
            None => assert_eq!(got.unwrap().handle, 3),
        }
    }
    let mut gone = in_state(turn(TurnReason::Ready));
    gone[0].name = Some("named".to_string());
    gone[0].pty = Some(Pty {
        handle: 3,
        alive: false,
    });
    assert_eq!(
        words(type_user_turn(&gone, ID)),
        (400, "named is not running — resume it first".to_string())
    );
    assert_eq!(words(type_user_turn(&vec![], ID)).0, 404);
}

#[test]
fn what_is_told_has_words_and_a_bound() {
    let list = in_state(turn(TurnReason::Ready));
    let tell = |text: &str| {
        tell_session(
            &list,
            ID,
            &TellBody {
                text: text.to_string(),
            },
        )
    };
    let (pty, text) = tell("  fix it \n\n").unwrap();
    assert_eq!((pty.handle, text.as_str()), (3, "  fix it"));
    assert_eq!(words(tell(" \t\n")), (400, "nothing to send".to_string()));
    assert!(tell(&"x".repeat(TELL_MAX)).is_ok());
    assert_eq!(
        words(tell(&"x".repeat(9 * 1024 + 5))),
        (
            400,
            "that is 9 KB — send a selection or the last lines, not the whole buffer".to_string()
        )
    );
    // Counted in bytes, and a trailing line break is not counted at all.
    assert!(tell(&format!("{}\n", "é".repeat(TELL_MAX / 2))).is_ok());
    assert_eq!(
        words(tell(&"é".repeat(TELL_MAX / 2 + 1))).1,
        "that is 8 KB — send a selection or the last lines, not the whole buffer"
    );
}

#[test]
fn a_nudge_reaches_the_interrupted_and_names_the_asking() {
    let mut cut = session(1);
    cut.set_state(turn(TurnReason::Ready), 20);
    cut.had_a_turn = true;
    cut.interrupted = true;
    let mut idle = session(2);
    idle.set_state(turn(TurnReason::Ready), 20);
    idle.had_a_turn = true;
    let mut asking = session(3);
    asking.set_state(turn(TurnReason::NeedsPermission), 20);
    asking.had_a_turn = true;
    asking.name = Some("held".to_string());
    let mut never = session(4);
    never.set_state(turn(TurnReason::AskedAQuestion), 20);
    never.had_a_turn = false;
    let mut dead = session(5);
    dead.set_state(turn(TurnReason::Ready), 20);
    dead.had_a_turn = true;
    dead.interrupted = true;
    dead.pty = None;
    let list = vec![cut, idle, asking, never, dead];
    let n = nudge_sessions(&list, &NudgeBody { text: None });
    assert_eq!(n.text, "continue");
    assert_eq!(
        n.targets.iter().map(|(id, _)| *id).collect::<Vec<_>>(),
        vec![1]
    );
    assert_eq!(n.held, vec!["held".to_string()]);
    let said = nudge_sessions(
        &list,
        &NudgeBody {
            text: Some(" go on ".to_string()),
        },
    );
    assert_eq!(said.text, "go on");
}
