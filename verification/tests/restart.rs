use orchd::model::{Moment, Pty, Session, State, TurnReason};
use orchd::restart::{cancel, next_due, queue, run_due, Queued, Which};

const NOW: Moment = 1_000;

fn turn(reason: TurnReason) -> State {
    State::YourTurn { since: NOW, reason }
}

fn live(id: u128, state: State, at: Moment) -> Session {
    let mut s = Session::new(
        id,
        "main".to_string(),
        "/repo".to_string(),
        None,
        at,
        "token".to_string(),
    );
    s.set_state(state, at);
    s.pty = Some(Pty {
        handle: id as u64,
        alive: true,
    });
    s
}

/// The rule the whole feature turns on, row by row.
#[test]
fn a_session_is_safe_to_restart_only_at_its_prompt() {
    for (state, want) in [
        (turn(TurnReason::TurnComplete), true),
        (turn(TurnReason::Ready), true),
        (turn(TurnReason::Interrupted), true),
        (turn(TurnReason::AskedAQuestion), false),
        (turn(TurnReason::NeedsPermission), false),
        (State::Working, false),
        (State::Starting, false),
        (
            State::BuildFailing {
                summary: String::new(),
            },
            true,
        ),
        (
            State::Error {
                message: String::new(),
            },
            true,
        ),
        (State::Exited, false),
        (State::Archived { resumable: true }, false),
    ] {
        assert_eq!(state.safe_to_restart(), want, "{state:?}");
    }
}

/// "Restart all" flags every live session and says how many go now.
#[test]
fn the_queue_takes_every_live_session_and_counts_the_ready_ones() {
    let mut list = vec![
        live(1, turn(TurnReason::TurnComplete), 1),
        live(2, State::Working, 2),
        live(3, turn(TurnReason::AskedAQuestion), 3),
    ];
    let got = queue(&mut list, Which::All).unwrap();
    assert_eq!(got, Queued { queued: 3, now: 1 });
    assert!(list.iter().all(|s| s.restart_queued));
}

#[test]
fn next_due_skips_a_session_that_is_not_safe_yet() {
    let mut list = vec![
        live(1, turn(TurnReason::AskedAQuestion), 1),
        live(2, State::Working, 2),
    ];
    queue(&mut list, Which::All).unwrap();
    assert!(next_due(&list).is_none(), "nothing is ready");

    list.push(live(3, turn(TurnReason::TurnComplete), 3));
    queue(&mut list, Which::One(3)).unwrap();
    assert_eq!(next_due(&list).map(|(id, _)| id), Some(3));
    assert_eq!(run_due(&list, true).map(|(_, ws)| ws), Some("main".to_string()));
    assert!(run_due(&list, false).is_none(), "a swap is running");
}

#[test]
fn the_oldest_flagged_session_goes_first() {
    let mut list = vec![
        live(1, turn(TurnReason::TurnComplete), 30),
        live(2, turn(TurnReason::TurnComplete), 10),
        live(3, turn(TurnReason::TurnComplete), 20),
    ];
    queue(&mut list, Which::All).unwrap();
    assert_eq!(next_due(&list).map(|(id, _)| id), Some(2));
}

/// The bar's restart takes only what the upgrade left behind.
#[test]
fn stale_takes_only_the_sessions_on_an_old_build() {
    let mut list = vec![
        live(1, turn(TurnReason::TurnComplete), 1),
        live(2, turn(TurnReason::TurnComplete), 2),
    ];
    list[0].agent_stale = true;
    assert_eq!(
        queue(&mut list, Which::Stale).unwrap(),
        Queued { queued: 1, now: 1 }
    );
    assert!(list[0].restart_queued);
    assert!(
        !list[1].restart_queued,
        "a session already on the new build is left alone"
    );
}

/// A session that is not running is refused by id, not silently counted.
#[test]
fn a_session_with_no_pty_is_refused_by_name() {
    let mut s = live(1, State::Working, 1);
    s.pty = None;
    s.set_state(State::Archived { resumable: true }, 2);
    let mut list = vec![s];
    let err = queue(&mut list, Which::One(1)).unwrap_err();
    assert!(err.message().contains("not running"), "{}", err.message());
    assert_eq!(err.status(), 400);
    assert!(!list[0].restart_queued);
    assert_eq!(queue(&mut list, Which::One(9)).unwrap_err().status(), 404);
}

#[test]
fn cancel_takes_it_back_out() {
    let mut list = vec![live(1, State::Working, 1)];
    queue(&mut list, Which::One(1)).unwrap();
    assert!(cancel(&mut list, 1).unwrap());
    assert!(!list[0].restart_queued);
    assert!(!cancel(&mut list, 1).unwrap());
    assert!(cancel(&mut list, 2).is_err());
}
