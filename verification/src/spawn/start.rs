//! Starting a session, step by step, and undoing what a start that fails has done.

use vstd::prelude::*;
use vstd::string::*;
use crate::api::{refuse, ApiError, Said};
use crate::ids::{short, short_id};
use crate::model::{Pty, Session, SessionId};
use crate::sessions::{apart, lemma_seat, lemma_seat_found, locate, same_ids, seat, seated};
use crate::spawn::Source;
use crate::text::{cat2, cat3, cat4, signed_decimal, signed_number};

verus! {

/// The steps of a start.
#[derive(Debug, Clone, Copy, PartialEq, Eq, Structural)]
pub enum Step {
    /// Take main's claim. Only where the session opens in main.
    ClaimMain,
    /// Find the workspace, the flags, and the record of the conversation that is continued.
    Find,
    /// Clear the worktree that the conversation's transcript pins it to, whichever that is.
    /// Now nothing else writes there: the process before is gone, and the next is not
    /// started. Failing at it ends nothing.
    ClearPin,
    /// Read the branch and the environment.
    Prepare,
    /// Is there room for another agent?
    CheckRoom,
    /// Put the record in, before the process that could speak about it exists, and forget
    /// what the last agent complained of.
    Insert,
    /// Start the process.
    StartPty,
    /// Take the record back out.
    TakeBack,
    /// Hang the terminal on the record.
    Attach,
    /// The claim belongs to the record, so it is settled once the record is in.
    ReclaimMain,
    /// Give main's claim back.
    ReleaseMain,
    /// Arm the one observer of the exit.
    Watch,
    /// See anew which version of the agent is installed.
    CheckVersion,
    /// Tell the page.
    Notify,
}

/// The first step of a start.
pub open spec fn first_of(main: bool) -> Step {
    if main {
        Step::ClaimMain
    } else {
        Step::Find
    }
}

/// What follows a step that went well or did not, or nothing where the start is over.
/// `resume` is the conversation that is continued in a workspace that stands, if one is.
pub open spec fn following(step: Step, ok: bool, main: bool, resume: Option<Source>) -> Option<
    Step,
> {
    let undone = if main {
        Some(Step::ReleaseMain)
    } else {
        None
    };
    match step {
        Step::ClaimMain => if ok {
            Some(Step::Find)
        } else {
            None
        },
        Step::Find => if !ok {
            undone
        } else if resume is Some {
            Some(Step::ClearPin)
        } else {
            Some(Step::Prepare)
        },
        Step::ClearPin => Some(Step::Prepare),
        Step::Prepare => if ok {
            Some(Step::CheckRoom)
        } else {
            undone
        },
        Step::CheckRoom => if ok {
            Some(Step::Insert)
        } else {
            undone
        },
        Step::Insert => Some(Step::StartPty),
        Step::StartPty => if ok {
            Some(Step::Attach)
        } else {
            Some(Step::TakeBack)
        },
        Step::TakeBack => undone,
        Step::Attach => if main {
            Some(Step::ReclaimMain)
        } else {
            Some(Step::Watch)
        },
        Step::ReclaimMain => Some(Step::Watch),
        Step::ReleaseMain => None,
        Step::Watch => Some(Step::CheckVersion),
        Step::CheckVersion => Some(Step::Notify),
        Step::Notify => None,
    }
}

pub fn first_step(main: bool) -> (r: Step)
    ensures
        r == first_of(main),
{
    if main {
        Step::ClaimMain
    } else {
        Step::Find
    }
}

/// The next step of a start, after `step` went well or did not.
pub fn spawn_session(step: Step, ok: bool, main: bool, resume: Option<Source>) -> (r: Option<Step>)
    ensures
        r == following(step, ok, main, resume),
{
    let undone: Option<Step> = if main {
        Some(Step::ReleaseMain)
    } else {
        None
    };
    match step {
        Step::ClaimMain => if ok {
            Some(Step::Find)
        } else {
            None
        },
        Step::Find => if !ok {
            undone
        } else if resume.is_some() {
            Some(Step::ClearPin)
        } else {
            Some(Step::Prepare)
        },
        Step::ClearPin => Some(Step::Prepare),
        Step::Prepare => if ok {
            Some(Step::CheckRoom)
        } else {
            undone
        },
        Step::CheckRoom => if ok {
            Some(Step::Insert)
        } else {
            undone
        },
        Step::Insert => Some(Step::StartPty),
        Step::StartPty => if ok {
            Some(Step::Attach)
        } else {
            Some(Step::TakeBack)
        },
        Step::TakeBack => undone,
        Step::Attach => if main {
            Some(Step::ReclaimMain)
        } else {
            Some(Step::Watch)
        },
        Step::ReclaimMain => Some(Step::Watch),
        Step::ReleaseMain => None,
        Step::Watch => Some(Step::CheckVersion),
        Step::CheckVersion => Some(Step::Notify),
        Step::Notify => None,
    }
}

/// What a start holds: its record in the list, main's claim, and a running process.
pub struct Held {
    pub record: bool,
    pub claim: bool,
    pub process: bool,
}

/// What is held after a step, given what was held before it.
pub open spec fn held_after(h: Held, step: Step, ok: bool) -> Held {
    match step {
        Step::ClaimMain => Held { claim: ok, ..h },
        Step::Insert => Held { record: true, ..h },
        Step::StartPty => Held { process: ok, ..h },
        Step::TakeBack => Held { record: false, ..h },
        Step::ReclaimMain => Held { claim: true, ..h },
        Step::ReleaseMain => Held { claim: false, ..h },
        _ => h,
    }
}

/// A start that went this far with these outcomes, the steps in the order they were
/// taken.
pub open spec fn is_start(steps: Seq<(Step, bool)>, main: bool, resume: Option<Source>) -> bool
    decreases steps.len(),
{
    if steps.len() == 0 {
        true
    } else {
        let front = steps.drop_last();
        is_start(front, main, resume) && if front.len() == 0 {
            steps.last().0 == first_of(main)
        } else {
            Some(steps.last().0) == following(front.last().0, front.last().1, main, resume)
        }
    }
}

/// What a start holds once these steps are taken.
pub open spec fn held_by(steps: Seq<(Step, bool)>) -> Held
    decreases steps.len(),
{
    if steps.len() == 0 {
        Held { record: false, claim: false, process: false }
    } else {
        held_after(held_by(steps.drop_last()), steps.last().0, steps.last().1)
    }
}

/// Whether a start is over after these steps.
pub open spec fn is_over(steps: Seq<(Step, bool)>, main: bool, resume: Option<Source>) -> bool {
    steps.len() > 0 && following(steps.last().0, steps.last().1, main, resume) is None
}

/// A start that is over either runs, with its record in and main's claim where it is in
/// main, or holds nothing at all: a refusal costs neither a record nor the claim.
pub proof fn a_failed_start_leaves_nothing(
    steps: Seq<(Step, bool)>,
    main: bool,
    resume: Option<Source>,
)
    requires
        is_start(steps, main, resume),
        is_over(steps, main, resume),
    ensures
        steps.last().0 == Step::Notify ==> held_by(steps) == (Held {
            record: true,
            claim: main,
            process: true,
        }),
        steps.last().0 != Step::Notify ==> held_by(steps) == (Held {
            record: false,
            claim: false,
            process: false,
        }),
{
    lemma_held(steps, main, resume);
}

/// No process of a start exists before the record that a hook about it would look for.
pub proof fn the_record_is_in_before_the_process(
    steps: Seq<(Step, bool)>,
    main: bool,
    resume: Option<Source>,
)
    requires
        is_start(steps, main, resume),
        held_by(steps).process,
    ensures
        held_by(steps).record,
{
    lemma_held(steps, main, resume);
}

/// What is held right after a step of a start.
spec fn held_at(step: Step, ok: bool, main: bool) -> Held {
    match step {
        Step::ClaimMain => Held { record: false, claim: ok, process: false },
        Step::Find => Held { record: false, claim: main, process: false },
        Step::ClearPin => Held { record: false, claim: main, process: false },
        Step::Prepare => Held { record: false, claim: main, process: false },
        Step::CheckRoom => Held { record: false, claim: main, process: false },
        Step::Insert => Held { record: true, claim: main, process: false },
        Step::StartPty => Held { record: true, claim: main, process: ok },
        Step::TakeBack => Held { record: false, claim: main, process: false },
        Step::Attach => Held { record: true, claim: main, process: true },
        Step::ReclaimMain => Held { record: true, claim: true, process: true },
        Step::ReleaseMain => Held { record: false, claim: false, process: false },
        Step::Watch => Held { record: true, claim: main, process: true },
        Step::CheckVersion => Held { record: true, claim: main, process: true },
        Step::Notify => Held { record: true, claim: main, process: true },
    }
}

proof fn lemma_held(steps: Seq<(Step, bool)>, main: bool, resume: Option<Source>)
    requires
        is_start(steps, main, resume),
    ensures
        steps.len() > 0 ==> held_by(steps) == held_at(steps.last().0, steps.last().1, main),
        steps.len() > 0 && (steps.last().0 == Step::ClaimMain || steps.last().0
            == Step::ReclaimMain || steps.last().0 == Step::ReleaseMain) ==> main,
    decreases steps.len(),
{
    if steps.len() > 1 {
        lemma_held(steps.drop_last(), main, resume);
    } else if steps.len() == 1 {
        assert(held_by(steps.drop_last()) == (Held {
            record: false,
            claim: false,
            process: false,
        }));
    }
}

/// Whether a start took a step.
pub open spec fn took(steps: Seq<(Step, bool)>, step: Step) -> bool {
    exists|j: int| 0 <= j < steps.len() && (#[trigger] steps[j]).0 == step
}

/// A continued conversation is released from its worktree before its process is started,
/// and no other is touched: the pin of a transcript is cleared exactly where a conversation
/// is continued.
pub proof fn a_pin_is_cleared_before_the_process(
    steps: Seq<(Step, bool)>,
    main: bool,
    resume: Option<Source>,
    i: int,
)
    requires
        is_start(steps, main, resume),
        0 <= i < steps.len(),
        steps[i].0 == Step::StartPty,
    ensures
        took(steps.take(i), Step::ClearPin) == (resume is Some),
        resume is None ==> !took(steps, Step::ClearPin),
{
    let upto = steps.take(i + 1);
    lemma_part(steps, main, resume, i + 1);
    lemma_pin(steps, main, resume);
    lemma_pin(upto, main, resume);
    lemma_pin(upto.drop_last(), main, resume);
    assert(upto.drop_last() =~= steps.take(i));
    assert(upto.last() == steps[i]);
}

/// A pin that could not be cleared ends no start.
pub proof fn a_pin_ends_no_start(main: bool, resume: Option<Source>, ok: bool)
    ensures
        following(Step::ClearPin, ok, main, resume) == Some(Step::Prepare),
{
}

/// Whatever start brings a process up leaves it with its observer, with the agent's version
/// looked at anew, and with the page told last.
pub proof fn a_started_session_is_watched(
    steps: Seq<(Step, bool)>,
    main: bool,
    resume: Option<Source>,
)
    requires
        is_start(steps, main, resume),
        is_over(steps, main, resume),
        held_by(steps).process,
    ensures
        steps.last().0 == Step::Notify,
        took(steps, Step::Watch),
        took(steps, Step::CheckVersion),
{
    lemma_held(steps, main, resume);
    lemma_tail(steps, main, resume);
}

/// A start cut short is a start.
proof fn lemma_part(steps: Seq<(Step, bool)>, main: bool, resume: Option<Source>, n: int)
    requires
        is_start(steps, main, resume),
        0 <= n <= steps.len(),
    ensures
        is_start(steps.take(n), main, resume),
    decreases steps.len(),
{
    if n < steps.len() {
        lemma_part(steps.drop_last(), main, resume, n);
        assert(steps.drop_last().take(n) =~= steps.take(n));
    } else {
        assert(steps.take(n) =~= steps);
    }
}

/// A start that nothing fails brings a process up, with main's claim taken first and settled
/// again on the record exactly where the session opens in main.
pub proof fn a_start_that_nothing_fails_runs(
    steps: Seq<(Step, bool)>,
    main: bool,
    resume: Option<Source>,
)
    requires
        is_start(steps, main, resume),
        is_over(steps, main, resume),
        forall|i: int| 0 <= i < steps.len() ==> (#[trigger] steps[i]).1,
    ensures
        steps.last().0 == Step::Notify,
        held_by(steps) == (Held { record: true, claim: main, process: true }),
        took(steps, Step::ClaimMain) <==> main,
        took(steps, Step::CheckRoom),
        took(steps, Step::Insert),
        took(steps, Step::StartPty),
        took(steps, Step::Attach),
        took(steps, Step::ReclaimMain) <==> main,
        !took(steps, Step::TakeBack),
        !took(steps, Step::ReleaseMain),
{
    lemma_all_well(steps, main, resume);
    lemma_held(steps, main, resume);
}

/// How far a start has come.
spec fn stage(s: Step) -> int {
    match s {
        Step::ClaimMain => 0,
        Step::Find => 1,
        Step::ClearPin => 2,
        Step::Prepare => 3,
        Step::CheckRoom => 4,
        Step::Insert => 5,
        Step::StartPty => 6,
        Step::Attach => 7,
        Step::ReclaimMain => 8,
        Step::Watch => 9,
        Step::CheckVersion => 10,
        Step::Notify => 11,
        Step::TakeBack => 12,
        Step::ReleaseMain => 13,
    }
}

proof fn lemma_all_well(steps: Seq<(Step, bool)>, main: bool, resume: Option<Source>)
    requires
        is_start(steps, main, resume),
        forall|i: int| 0 <= i < steps.len() ==> (#[trigger] steps[i]).1,
    ensures
        steps.len() > 0 ==> stage(steps.last().0) <= 11,
        steps.len() > 0 && stage(steps.last().0) >= 0 && main ==> took(steps, Step::ClaimMain),
        !main ==> !took(steps, Step::ClaimMain) && !took(steps, Step::ReclaimMain),
        steps.len() > 0 && stage(steps.last().0) >= 4 ==> took(steps, Step::CheckRoom),
        steps.len() > 0 && stage(steps.last().0) >= 5 ==> took(steps, Step::Insert),
        steps.len() > 0 && stage(steps.last().0) >= 6 ==> took(steps, Step::StartPty),
        steps.len() > 0 && stage(steps.last().0) >= 7 ==> took(steps, Step::Attach),
        steps.len() > 0 && stage(steps.last().0) >= 8 && main ==> took(steps, Step::ReclaimMain),
        !took(steps, Step::TakeBack),
        !took(steps, Step::ReleaseMain),
    decreases steps.len(),
{
    if steps.len() > 0 {
        let front = steps.drop_last();
        let n = front.len() as int;
        assert forall|i: int| 0 <= i < front.len() implies (#[trigger] front[i]).1 by {
            assert(steps[i] == front[i]);
        }
        lemma_all_well(front, main, resume);
        assert(steps[n] == steps.last());
        if n > 0 {
            assert(front[n - 1] == front.last());
        }
        lemma_took(steps, Step::ClaimMain);
        lemma_took(steps, Step::CheckRoom);
        lemma_took(steps, Step::Insert);
        lemma_took(steps, Step::StartPty);
        lemma_took(steps, Step::Attach);
        lemma_took(steps, Step::ReclaimMain);
        lemma_took(steps, Step::TakeBack);
        lemma_took(steps, Step::ReleaseMain);
    }
}

/// What was taken by the end was taken before, or last.
proof fn lemma_took(steps: Seq<(Step, bool)>, step: Step)
    requires
        steps.len() > 0,
    ensures
        took(steps, step) <==> took(steps.drop_last(), step) || steps.last().0 == step,
{
    let front = steps.drop_last();
    if took(front, step) {
        let j = choose|j: int| 0 <= j < front.len() && (#[trigger] front[j]).0 == step;
        assert(steps[j] == front[j]);
    }
    assert(steps[steps.len() - 1] == steps.last());
    if took(steps, step) && steps.last().0 != step {
        let j = choose|j: int| 0 <= j < steps.len() && (#[trigger] steps[j]).0 == step;
        assert(front[j] == steps[j]);
    }
}

/// Whether a step comes only once the pin was looked at.
spec fn is_past_pin(step: Step) -> bool {
    match step {
        Step::ClaimMain => false,
        Step::Find => false,
        Step::ReleaseMain => false,
        _ => true,
    }
}

proof fn lemma_pin(steps: Seq<(Step, bool)>, main: bool, resume: Option<Source>)
    requires
        is_start(steps, main, resume),
    ensures
        resume is Some && steps.len() > 0 && is_past_pin(steps.last().0) ==> took(
            steps,
            Step::ClearPin,
        ),
        resume is Some && steps.len() > 0 && steps.last().0 == Step::StartPty ==> took(
            steps.drop_last(),
            Step::ClearPin,
        ),
        resume is None ==> !took(steps, Step::ClearPin),
    decreases steps.len(),
{
    if steps.len() > 0 {
        let front = steps.drop_last();
        let n = front.len() as int;
        lemma_pin(front, main, resume);
        assert(steps[n] == steps.last());
        if resume is Some && took(front, Step::ClearPin) {
            let j = choose|j: int| 0 <= j < front.len() && (#[trigger] front[j]).0 == Step::ClearPin;
            assert(steps[j].0 == Step::ClearPin);
        }
        if resume is None && took(steps, Step::ClearPin) {
            let j = choose|j: int| 0 <= j < steps.len() && (#[trigger] steps[j]).0 == Step::ClearPin;
            if j < n {
                assert(front[j].0 == Step::ClearPin);
            }
        }
    }
}

proof fn lemma_tail(steps: Seq<(Step, bool)>, main: bool, resume: Option<Source>)
    requires
        is_start(steps, main, resume),
    ensures
        steps.len() > 0 && (steps.last().0 == Step::Watch || steps.last().0 == Step::CheckVersion
            || steps.last().0 == Step::Notify) ==> took(steps, Step::Watch),
        steps.len() > 0 && (steps.last().0 == Step::CheckVersion || steps.last().0
            == Step::Notify) ==> took(steps, Step::CheckVersion),
    decreases steps.len(),
{
    if steps.len() > 0 {
        let front = steps.drop_last();
        lemma_tail(front, main, resume);
        assert(steps[steps.len() - 1] == steps.last());
        if took(front, Step::Watch) {
            let j = choose|j: int| 0 <= j < front.len() && (#[trigger] front[j]).0 == Step::Watch;
            assert(steps[j].0 == Step::Watch);
        }
        if took(front, Step::CheckVersion) {
            let j = choose|j: int|
                0 <= j < front.len() && (#[trigger] front[j]).0 == Step::CheckVersion;
            assert(steps[j].0 == Step::CheckVersion);
        }
    }
}

// ---------------------------------------------------------------------------
// The record in the list
// ---------------------------------------------------------------------------

/// The list with a record put in, in place of the one under the same id.
pub open spec fn with_record(list: Seq<Session>, s: Session) -> Seq<Session> {
    if seated(list, s.id) {
        list.update(seat(list, s.id), s)
    } else {
        list.push(s)
    }
}

/// The list without the record under an id.
pub open spec fn without_record(list: Seq<Session>, id: SessionId) -> Seq<Session> {
    if seated(list, id) {
        list.remove(seat(list, id))
    } else {
        list
    }
}

pub fn insert_record(list: &mut Vec<Session>, session: Session)
    ensures
        apart(old(list)@) ==> apart(final(list)@),
        final(list)@ == with_record(old(list)@, session),
{
    proof {
        lemma_seat_found(list@, session.id);
    }
    match locate(list, session.id) {
        Some(i) => {
            list.set(i, session);
        },
        None => {
            list.push(session);
        },
    }
}

pub fn remove_record(list: &mut Vec<Session>, id: SessionId) -> (r: Option<Session>)
    ensures
        apart(old(list)@) ==> apart(final(list)@),
        final(list)@ == without_record(old(list)@, id),
        r == if seated(old(list)@, id) {
            Some(old(list)@[seat(old(list)@, id)])
        } else {
            None
        },
{
    match locate(list, id) {
        Some(i) => Some(list.remove(i)),
        None => None,
    }
}

/// Hang a terminal on the record under an id, if it is still there.
pub fn attach(list: &mut Vec<Session>, id: SessionId, pty: Pty, pid: Option<u32>)
    ensures
        same_ids(old(list)@, final(list)@),
        if seated(old(list)@, id) {
            let i = seat(old(list)@, id);
            final(list)@ == old(list)@.update(
                i,
                (Session { pty: Some(pty), pid, ..old(list)@[i] }),
            )
        } else {
            final(list)@ == old(list)@
        },
{
    match locate(list, id) {
        Some(i) => {
            let s: &mut Session = &mut list[i];
            s.pty = Some(pty);
            s.pid = pid;
            proof {
                lemma_seat_found(old(list)@, id);
            }
        },
        None => {},
    }
}

/// No id is ever on record twice: where no two records share one, none do after a record
/// is put in or taken out, and the one that was taken out is gone.
pub proof fn no_id_is_on_record_twice(list: Seq<Session>, s: Session, id: SessionId)
    requires
        apart(list),
    ensures
        apart(with_record(list, s)),
        apart(without_record(list, id)),
        !seated(without_record(list, id), id),
{
    lemma_seat_found(list, s.id);
    lemma_seat_found(list, id);
    let after = without_record(list, id);
    let at = seat(list, id);
    assert forall|k: int| 0 <= k < after.len() implies (#[trigger] after[k]).id != id by {
        if seated(list, id) {
            if k < at {
                assert(list[k].id != id);
            } else {
                assert(after[k] == list[k + 1]);
                assert(list[at].id != list[k + 1].id);
            }
        } else {
            assert(list[k].id != id);
        }
    }
    lemma_seat(after, id, after.len() as int);
}

/// A record put in and taken back out leaves the list as it was, but for what stood
/// under the same id before.
pub proof fn a_refused_spawn_takes_its_record_back(list: Seq<Session>, s: Session)
    requires
        apart(list),
    ensures
        seated(with_record(list, s), s.id),
        !seated(list, s.id) ==> without_record(with_record(list, s), s.id) == list,
        !seated(without_record(with_record(list, s), s.id), s.id),
{
    lemma_seat_found(list, s.id);
    let mid = with_record(list, s);
    let at = seat(list, s.id);
    assert forall|k: int| 0 <= k < at implies (#[trigger] mid[k]).id != s.id by {
        assert(list[k].id != s.id);
    }
    lemma_seat(mid, s.id, at);
    let after = without_record(mid, s.id);
    if !seated(list, s.id) {
        assert(after =~= list);
    } else {
        assert forall|k: int| 0 <= k < after.len() implies (#[trigger] after[k]).id != s.id by {
            if k < at {
                assert(mid[k].id != s.id);
            } else {
                assert(after[k] == list[k + 1]);
            }
        }
        lemma_seat(after, s.id, after.len() as int);
    }
}

// ---------------------------------------------------------------------------
// Refusals
// ---------------------------------------------------------------------------

/// Whether a machine with this much to say against it takes another agent.
pub fn room_for_a_session(why: Option<&str>) -> (r: Result<(), ApiError>)
    ensures
        match why {
            None => r is Ok,
            Some(w) => r is Err && r->Err_0@ == Said::Failed("not starting a session: "@ + w@),
        },
{
    match why {
        None => Ok(()),
        Some(w) => Err(refuse(cat2("not starting a session: ", w))),
    }
}

/// Whether a spawned session has stayed up: its terminal is on the record, and the
/// grace window ran out before it exited.
pub open spec fn confirm_refusal(id: SessionId, handle: bool, exit: Option<i32>) -> Option<Said> {
    if !handle {
        Some(
            Said::Failed(
                "session "@ + short(id) + " was gone before it could be confirmed"@,
            ),
        )
    } else {
        match exit {
            Some(code) => Some(
                Said::Failed(
                    "session "@ + short(id) + " exited immediately, code "@ + signed_decimal(
                        code as int,
                    ),
                ),
            ),
            None => None,
        }
    }
}

/// A spawn is answered for wherever its terminal is on record and it did not exit, whatever
/// it would have exited with.
pub proof fn a_session_that_stays_up_is_confirmed(id: SessionId, handle: bool, exit: Option<i32>)
    ensures
        confirm_refusal(id, handle, exit) is None <==> handle && exit is None,
{
}

/// Answer for a spawn only once the process has stayed up.
pub fn spawn_session_confirmed(id: SessionId, handle: bool, exit: Option<i32>) -> (r: Result<
    SessionId,
    ApiError,
>)
    ensures
        match confirm_refusal(id, handle, exit) {
            None => r == Ok::<SessionId, ApiError>(id),
            Some(why) => r is Err && r->Err_0@ == why,
        },
{
    if !handle {
        let eight: String = short_id(&id);
        return Err(
            refuse(
                cat3("session ", eight.as_str(), " was gone before it could be confirmed"),
            ),
        );
    }
    match exit {
        Some(code) => {
            let eight: String = short_id(&id);
            let n: String = signed_number(code as i64);
            Err(
                refuse(
                    cat4("session ", eight.as_str(), " exited immediately, code ", n.as_str()),
                ),
            )
        },
        None => Ok(id),
    }
}

/// How far into a start a step stands.
pub open spec fn start_turn(step: Step) -> int {
    match step {
        Step::ClaimMain => 0,
        Step::Find => 1,
        Step::ClearPin => 2,
        Step::Prepare => 3,
        Step::CheckRoom => 4,
        Step::Insert => 5,
        Step::StartPty => 6,
        Step::TakeBack => 7,
        Step::Attach => 7,
        Step::ReclaimMain => 8,
        Step::ReleaseMain => 12,
        Step::Watch => 9,
        Step::CheckVersion => 10,
        Step::Notify => 11,
    }
}

/// A start goes only forward. What could not be claimed, found, prepared or given room ends it,
/// and so does a process that would not start, once what was taken is given back; nothing else
/// ends it before the page is told.
pub proof fn a_start_only_goes_forward(
    step: Step,
    ok: bool,
    main: bool,
    resume: Option<Source>,
)
    ensures
        first_of(main) is ClaimMain <==> main,
        first_of(main) is Find <==> !main,
        following(step, ok, main, resume) matches Some(next) ==> start_turn(step) < start_turn(next),
        following(step, true, main, resume) is None ==> step is Notify || step is ReleaseMain || (
        step is TakeBack && !main),
        following(step, false, main, resume) is None ==> step is Notify || step is ReleaseMain
            || step is ClaimMain || (!main && (step is Find || step is Prepare || step is CheckRoom
            || step is TakeBack)),
        !ok && main && (step is Find || step is Prepare || step is CheckRoom) ==> following(
            step,
            ok,
            main,
            resume,
        ) == Some(Step::ReleaseMain),
        !ok && step is StartPty ==> following(step, ok, main, resume) == Some(Step::TakeBack),
{
}

} // verus!
