//! The rebase button, and the bank it puts your work in.
//!
//! A rebase cannot take uncommitted work with it, so the button parks it on a ref of
//! its own and puts it back afterwards.

use vstd::prelude::*;
use vstd::string::*;
use crate::api::{refuse, refuse_busy, ApiError, Said};
use crate::model::Bank;
use crate::text::{
    cat2, cat3, cat4, cat5, copies, decimal, holds_text, join, joined, number, opt_str, opt_text,
    stands_at, texts,
};

verus! {

/// Where a workspace's work is banked.
pub open spec fn bank_ref(workspace: Seq<char>) -> Seq<char> {
    "refs/orchd/wip/"@ + workspace
}

pub fn wip_ref(workspace: &str) -> (r: String)
    ensures
        r@ == bank_ref(workspace@),
{
    cat2("refs/orchd/wip/", workspace)
}

/// The first three paths of a list, for a sentence.
pub open spec fn three_of(paths: Seq<Seq<char>>) -> Seq<char> {
    joined(
        if paths.len() > 3 {
            paths.take(3)
        } else {
            paths
        },
        ", "@,
    )
}

fn first_three(paths: &Vec<String>) -> (r: String)
    ensures
        r@ == three_of(texts(paths@)),
{
    let mut shown: Vec<String> = copies(paths);
    if shown.len() > 3 {
        shown.truncate(3);
        proof {
            assert(texts(shown@) =~= texts(paths@).take(3));
        }
    }
    join(&shown, ", ")
}

/// Why there is no bank to act on, if there is none.
pub open spec fn bank_refusal(workspace: Seq<char>, known: bool, banked: bool) -> Option<Said> {
    if !known {
        Some(Said::Failed("unknown workspace "@ + workspace))
    } else if !banked {
        Some(Said::Failed(workspace + " has nothing banked"@))
    } else {
        None
    }
}

/// The two questions that every verb on a bank asks first.
pub fn banked_at(workspace: &str, known: bool, bank: Option<&Bank>) -> (r: Result<Bank, ApiError>)
    ensures
        match bank_refusal(workspace@, known, bank is Some) {
            Some(why) => r is Err && r->Err_0@ == why,
            None => r is Ok && bank is Some && r->Ok_0 == *bank->Some_0,
        },
{
    if !known {
        return Err(refuse(cat2("unknown workspace ", workspace)));
    }
    match bank {
        Some(b) => Ok(b.clone()),
        None => Err(refuse(cat2(workspace, " has nothing banked"))),
    }
}

// ---------------------------------------------------------------------------
// Rebase onto the upstream base
// ---------------------------------------------------------------------------

/// Why a rebase does not start, if it does not.
pub open spec fn rebase_refusal(
    workspace: Seq<char>,
    known: bool,
    mid_rebase: bool,
    conflicted: Seq<Seq<char>>,
    busy: Option<Seq<char>>,
    banked: Option<Bank>,
) -> Option<Said> {
    if !known {
        Some(Said::Failed("unknown workspace "@ + workspace))
    } else if mid_rebase {
        Some(
            Said::Busy(
                "a rebase is already stopped part-way here; finish or abort it first"@,
            ),
        )
    } else if conflicted.len() > 0 {
        Some(
            Said::Failed(
                workspace + " still has conflicts ("@ + three_of(conflicted)
                    + ") — settle them first"@,
            ),
        )
    } else if busy is Some {
        Some(
            Said::Busy(
                busy->Some_0 + " is working here; rebasing under it would fight it"@,
            ),
        )
    } else if banked is Some {
        Some(
            Said::Failed(
                decimal(banked->Some_0.files as nat)
                    + " file(s) from an earlier rebase are still banked at "@ + bank_ref(workspace)
                    + " — put them back or discard them first"@,
            ),
        )
    } else {
        None
    }
}

/// Whether a rebase may start. A dirty tree does not stop it: its work is banked.
pub fn rebase(
    workspace: &str,
    known: bool,
    mid_rebase: bool,
    conflicted: &Vec<String>,
    busy: Option<&str>,
    banked: Option<&Bank>,
) -> (r: Result<(), ApiError>)
    ensures
        match rebase_refusal(
            workspace@,
            known,
            mid_rebase,
            texts(conflicted@),
            opt_str(busy),
            match banked {
                Some(b) => Some(*b),
                None => None,
            },
        ) {
            Some(why) => r is Err && r->Err_0@ == why,
            None => r is Ok,
        },
{
    if !known {
        return Err(refuse(cat2("unknown workspace ", workspace)));
    }
    if mid_rebase {
        return Err(
            refuse_busy(
                "a rebase is already stopped part-way here; finish or abort it first".to_owned(),
            ),
        );
    }
    if conflicted.len() > 0 {
        let names: String = first_three(conflicted);
        return Err(
            refuse(
                cat4(
                    workspace,
                    " still has conflicts (",
                    names.as_str(),
                    ") — settle them first",
                ),
            ),
        );
    }
    match busy {
        Some(who) => {
            return Err(
                refuse_busy(cat2(who, " is working here; rebasing under it would fight it")),
            );
        },
        None => {},
    }
    match banked {
        Some(b) => {
            let n: String = number(b.files);
            let at: String = wip_ref(workspace);
            Err(
                refuse(
                    cat4(
                        n.as_str(),
                        " file(s) from an earlier rebase are still banked at ",
                        at.as_str(),
                        " — put them back or discard them first",
                    ),
                ),
            )
        },
        None => Ok(()),
    }
}

/// A rebase starts wherever it can: in a known workspace with no rebase stopped part-way, no
/// conflict, nobody mid-turn and nothing parked. Nothing else stops it, each of these does,
/// and only the two that pass by themselves are answered as such.
pub proof fn a_rebase_starts_unless_something_is_in_the_way(
    workspace: Seq<char>,
    known: bool,
    mid_rebase: bool,
    conflicted: Seq<Seq<char>>,
    busy: Option<Seq<char>>,
    banked: Option<Bank>,
)
    ensures
        rebase_refusal(workspace, known, mid_rebase, conflicted, busy, banked) is None <==> known
            && !mid_rebase && conflicted.len() == 0 && busy is None && banked is None,
        rebase_refusal(workspace, known, mid_rebase, conflicted, busy, banked) matches Some(
            Said::Busy(_),
        ) <==> known && (mid_rebase || (conflicted.len() == 0 && busy is Some)),
{
}

/// The steps of a rebase.
#[derive(Debug, Clone, Copy, PartialEq, Eq, Structural)]
pub enum RebaseStep {
    /// See that nothing stands in its way.
    Check,
    /// Park the uncommitted work.
    Bank,
    /// Read the base anew. A base that could not be read is used as it was.
    Fetch,
    /// Rebase. It goes well where git answers, whether it went through or stopped; without
    /// an answer the parked work stays where it is.
    Rebase,
    /// See whether the rebase is stopped part-way.
    LookForStopped,
    /// Put the parked work back.
    PutBack,
    /// Measure the tree again.
    Reconcile,
}

/// What a rebase has seen so far.
#[derive(Debug, Clone, Copy, PartialEq, Eq, Structural)]
pub struct RebaseSeen {
    /// The tree had nothing uncommitted.
    pub clean: bool,
    /// Work was parked.
    pub banked: bool,
    /// The rebase did not go through.
    pub failed: bool,
    /// It is stopped part-way.
    pub stopped: bool,
}

/// What follows a step of a rebase that went well or did not.
pub open spec fn rebase_after(last: Option<RebaseStep>, ok: bool, seen: RebaseSeen) -> Option<
    RebaseStep,
> {
    match last {
        None => Some(RebaseStep::Check),
        Some(RebaseStep::Check) => if !ok {
            None
        } else if seen.clean {
            Some(RebaseStep::Fetch)
        } else {
            Some(RebaseStep::Bank)
        },
        Some(RebaseStep::Bank) => if ok {
            Some(RebaseStep::Fetch)
        } else {
            None
        },
        Some(RebaseStep::Fetch) => Some(RebaseStep::Rebase),
        Some(RebaseStep::Rebase) => if ok && seen.banked {
            Some(RebaseStep::LookForStopped)
        } else {
            Some(RebaseStep::Reconcile)
        },
        Some(RebaseStep::LookForStopped) => if seen.failed && seen.stopped {
            Some(RebaseStep::Reconcile)
        } else {
            Some(RebaseStep::PutBack)
        },
        Some(RebaseStep::PutBack) => Some(RebaseStep::Reconcile),
        Some(RebaseStep::Reconcile) => None,
    }
}

/// The next step of a rebase, after `last` went well or did not.
pub fn rebase_step(last: Option<RebaseStep>, ok: bool, seen: RebaseSeen) -> (r: Option<RebaseStep>)
    ensures
        r == rebase_after(last, ok, seen),
{
    match last {
        None => Some(RebaseStep::Check),
        Some(RebaseStep::Check) => if !ok {
            None
        } else if seen.clean {
            Some(RebaseStep::Fetch)
        } else {
            Some(RebaseStep::Bank)
        },
        Some(RebaseStep::Bank) => if ok {
            Some(RebaseStep::Fetch)
        } else {
            None
        },
        Some(RebaseStep::Fetch) => Some(RebaseStep::Rebase),
        Some(RebaseStep::Rebase) => if ok && seen.banked {
            Some(RebaseStep::LookForStopped)
        } else {
            Some(RebaseStep::Reconcile)
        },
        Some(RebaseStep::LookForStopped) => if seen.failed && seen.stopped {
            Some(RebaseStep::Reconcile)
        } else {
            Some(RebaseStep::PutBack)
        },
        Some(RebaseStep::PutBack) => Some(RebaseStep::Reconcile),
        Some(RebaseStep::Reconcile) => None,
    }
}

/// A rebase that went this far: each step with what had been seen when it was chosen,
/// and whether it went well. Whether the tree was clean is seen once.
pub open spec fn is_rebase(steps: Seq<(RebaseStep, bool, RebaseSeen)>, clean: bool) -> bool {
    forall|i: int|
        0 <= i < steps.len() ==> (#[trigger] steps[i]).2.clean == clean && Some(steps[i].0)
            == rebase_after(
            if i == 0 {
                None
            } else {
                Some(steps[i - 1].0)
            },
            i > 0 && steps[i - 1].1,
            steps[i].2,
        )
}

/// No tree with uncommitted work in it is rebased before that work is parked.
pub proof fn work_is_parked_before_a_rebase(
    steps: Seq<(RebaseStep, bool, RebaseSeen)>,
    clean: bool,
    i: int,
)
    requires
        is_rebase(steps, clean),
        0 <= i < steps.len(),
        steps[i].0 == RebaseStep::Rebase,
    ensures
        !clean ==> i == 3 && steps[1].0 == RebaseStep::Bank && steps[1].1,
        steps[0].0 == RebaseStep::Check && steps[0].1,
{
    assert(Some(steps[i].0) == rebase_after(
        if i == 0 {
            None
        } else {
            Some(steps[i - 1].0)
        },
        i > 0 && steps[i - 1].1,
        steps[i].2,
    ));
    assert(steps[i - 1].0 == RebaseStep::Fetch);
    assert(steps[i - 1].2.clean == clean);
    if i >= 2 {
        assert(steps[i - 2].2.clean == clean);
        if i >= 3 {
            assert(steps[i - 3].2.clean == clean);
            if i >= 4 {
                assert(steps[i - 4].2.clean == clean);
            }
        }
    }
}

/// Whether a rebase is over after these steps, by what had been seen when the last one was
/// done.
pub open spec fn is_rebase_over(
    steps: Seq<(RebaseStep, bool, RebaseSeen)>,
    seen: RebaseSeen,
) -> bool {
    steps.len() > 0 && rebase_after(Some(steps.last().0), steps.last().1, seen) is None
}

/// Parked work goes back: where a rebase that is over had parked work and git answered, it
/// looked whether the rebase is stopped part-way, and put the work back unless the rebase
/// both failed and is stopped. There it stays parked, and is never put into a tree that a
/// stopped rebase owns.
pub proof fn parked_work_goes_back(
    steps: Seq<(RebaseStep, bool, RebaseSeen)>,
    clean: bool,
    seen: RebaseSeen,
    i: int,
)
    requires
        is_rebase(steps, clean),
        seen.clean == clean,
        is_rebase_over(steps, seen),
        0 <= i < steps.len(),
        steps[i].0 == RebaseStep::Rebase,
        steps[i].1,
    ensures
        i + 1 < steps.len(),
        steps[i + 1].2.banked ==> {
            &&& steps[i + 1].0 == RebaseStep::LookForStopped
            &&& i + 2 < steps.len()
            &&& steps[i + 2].2.failed && steps[i + 2].2.stopped ==> steps[i + 2].0
                == RebaseStep::Reconcile && steps.len() == i + 3
            &&& !steps[i + 2].2.failed || !steps[i + 2].2.stopped ==> steps[i + 2].0
                == RebaseStep::PutBack && steps.len() == i + 4 && steps[i + 3].0
                == RebaseStep::Reconcile
        },
        !steps[i + 1].2.banked ==> steps[i + 1].0 == RebaseStep::Reconcile && steps.len() == i + 2,
{
    let n = steps.len() as int;
    assert(n > i + 1) by {
        if n == i + 1 {
            assert(steps.last() == steps[i]);
        }
    }
    assert(Some(steps[i + 1].0) == rebase_after(Some(steps[i].0), steps[i].1, steps[i + 1].2));
    lemma_after(steps, clean, i + 1);
    if steps[i + 1].2.banked {
        assert(n > i + 2) by {
            if n == i + 2 {
                assert(steps.last() == steps[i + 1]);
            }
        }
        assert(Some(steps[i + 2].0) == rebase_after(
            Some(steps[i + 1].0),
            steps[i + 1].1,
            steps[i + 2].2,
        ));
        lemma_after(steps, clean, i + 2);
        if steps[i + 2].0 == RebaseStep::PutBack {
            assert(n > i + 3) by {
                if n == i + 3 {
                    assert(steps.last() == steps[i + 2]);
                }
            }
            assert(Some(steps[i + 3].0) == rebase_after(
                Some(steps[i + 2].0),
                steps[i + 2].1,
                steps[i + 3].2,
            ));
            lemma_after(steps, clean, i + 3);
        }
    }
}

/// Nothing follows the last look at the tree.
proof fn lemma_after(steps: Seq<(RebaseStep, bool, RebaseSeen)>, clean: bool, i: int)
    requires
        is_rebase(steps, clean),
        0 <= i < steps.len(),
    ensures
        steps[i].0 == RebaseStep::Reconcile ==> steps.len() == i + 1,
{
    if steps[i].0 == RebaseStep::Reconcile && steps.len() > i + 1 {
        assert(Some(steps[i + 1].0) == rebase_after(
            Some(steps[i].0),
            steps[i].1,
            steps[i + 1].2,
        ));
    }
}

/// A rebase that nothing stands in the way of runs: the work is parked first where there
/// is any, the base is read anew, a base that could not be read stops nothing, and the tree
/// is measured again at the end. Only a check that failed, or work that could not be parked,
/// ends it before git is asked.
pub proof fn a_rebase_runs_unless_refused(
    steps: Seq<(RebaseStep, bool, RebaseSeen)>,
    clean: bool,
    seen: RebaseSeen,
)
    requires
        is_rebase(steps, clean),
        seen.clean == clean,
        is_rebase_over(steps, seen),
    ensures
        steps[0].0 == RebaseStep::Check,
        !steps[0].1 ==> steps.len() == 1,
        steps[0].1 && clean ==> steps.len() >= 4 && steps[1].0 == RebaseStep::Fetch && steps[2].0
            == RebaseStep::Rebase && steps.last().0 == RebaseStep::Reconcile,
        steps[0].1 && !clean ==> steps.len() >= 2 && steps[1].0 == RebaseStep::Bank && (
        !steps[1].1 ==> steps.len() == 2) && (steps[1].1 ==> steps.len() >= 5 && steps[2].0
            == RebaseStep::Fetch && steps[3].0 == RebaseStep::Rebase && steps.last().0
            == RebaseStep::Reconcile),
{
    let n = steps.len() as int;
    assert(Some(steps[0].0) == rebase_after(None, false, steps[0].2));
    if n > 1 {
        assert(Some(steps[1].0) == rebase_after(Some(steps[0].0), steps[0].1, steps[1].2));
    }
    if n > 2 {
        assert(Some(steps[2].0) == rebase_after(Some(steps[1].0), steps[1].1, steps[2].2));
    }
    if n > 3 {
        assert(Some(steps[3].0) == rebase_after(Some(steps[2].0), steps[2].1, steps[3].2));
    }
    if n > 4 {
        assert(Some(steps[4].0) == rebase_after(Some(steps[3].0), steps[3].1, steps[4].2));
    }
}

/// What becomes of banked work once the rebase has answered.
#[derive(Debug, Clone, Copy, PartialEq, Eq, Structural)]
pub enum Settle {
    /// Nothing was banked.
    Nothing,
    /// A rebase stopped part-way owns the tree, so the bank waits for it.
    Keep,
    /// The work goes back now.
    PutBack,
}

/// What became of it.
#[derive(Debug, Clone, Copy, PartialEq, Eq, Structural)]
pub enum Wip {
    Banked,
    Reapplied,
    Conflicted,
}

impl Wip {
    pub open spec fn word(self) -> Seq<char> {
        match self {
            Wip::Banked => "banked"@,
            Wip::Reapplied => "reapplied"@,
            Wip::Conflicted => "conflicted"@,
        }
    }

    /// The one word it is reported with.
    pub fn said(self) -> (r: &'static str)
        ensures
            r@ == self.word(),
    {
        match self {
            Wip::Banked => "banked",
            Wip::Reapplied => "reapplied",
            Wip::Conflicted => "conflicted",
        }
    }
}

pub open spec fn settling(banked: bool, failed: bool, mid_rebase: bool) -> Settle {
    if !banked {
        Settle::Nothing
    } else if failed && mid_rebase {
        Settle::Keep
    } else {
        Settle::PutBack
    }
}

/// What becomes of banked work is what the rebase does about it: it goes back wherever the
/// rebase went through or never started, waits only where it failed and is stopped, and where
/// nothing was banked nothing is put anywhere.
pub proof fn banked_work_waits_only_for_a_stopped_rebase(
    failed: bool,
    mid_rebase: bool,
    seen: RebaseSeen,
    ok: bool,
)
    ensures
        settling(false, failed, mid_rebase) == Settle::Nothing,
        !failed ==> settling(true, failed, mid_rebase) == Settle::PutBack,
        !mid_rebase ==> settling(true, failed, mid_rebase) == Settle::PutBack,
        failed && mid_rebase ==> settling(true, failed, mid_rebase) == Settle::Keep,
        seen.failed == failed && seen.stopped == mid_rebase ==> (settling(true, failed, mid_rebase)
            == Settle::PutBack <==> rebase_after(Some(RebaseStep::LookForStopped), ok, seen)
            == Some(RebaseStep::PutBack)),
{
}

/// What becomes of banked work: it waits only for a rebase that failed and is stopped
/// part-way. One that failed without starting owns nothing.
pub fn settle_bank(banked: bool, failed: bool, mid_rebase: bool) -> (r: Settle)
    ensures
        r == settling(banked, failed, mid_rebase),
{
    if !banked {
        Settle::Nothing
    } else if failed && mid_rebase {
        Settle::Keep
    } else {
        Settle::PutBack
    }
}

/// What became of banked work, given what was done and whether it went back.
pub open spec fn settled(how: Settle, went_back: bool) -> Option<Wip> {
    match how {
        Settle::Nothing => None,
        Settle::Keep => Some(Wip::Banked),
        Settle::PutBack => Some(
            if went_back {
                Wip::Reapplied
            } else {
                Wip::Conflicted
            },
        ),
    }
}

/// The bank after it was settled: gone only where the work went back.
pub open spec fn bank_after(bank: Option<Bank>, wip: Option<Wip>) -> Option<Bank> {
    if wip == Some(Wip::Reapplied) {
        None
    } else {
        bank
    }
}

/// Settle the bank: what became of the work, and the bank that is left.
pub fn settle(how: Settle, went_back: bool, bank: Option<Bank>) -> (r: (Option<Wip>, Option<Bank>))
    ensures
        r.0 == settled(how, went_back),
        r.1 == bank_after(bank, settled(how, went_back)),
{
    match how {
        Settle::Nothing => (None, bank),
        Settle::Keep => (Some(Wip::Banked), bank),
        Settle::PutBack => if went_back {
            (Some(Wip::Reapplied), None)
        } else {
            (Some(Wip::Conflicted), bank)
        },
    }
}

/// Banked work is never lost: either it went back into the tree, or the bank still
/// stands, and then the next press is refused before it could overwrite it.
pub proof fn banked_work_is_never_lost(
    workspace: Seq<char>,
    bank: Option<Bank>,
    how: Settle,
    went_back: bool,
    known: bool,
    mid_rebase: bool,
    conflicted: Seq<Seq<char>>,
    busy: Option<Seq<char>>,
)
    requires
        bank is Some,
    ensures
        bank_after(bank, settled(how, went_back)) is None ==> how == Settle::PutBack && went_back,
        bank_after(bank, settled(how, went_back)) is Some ==> bank_after(
            bank,
            settled(how, went_back),
        ) == bank && rebase_refusal(
            workspace,
            known,
            mid_rebase,
            conflicted,
            busy,
            bank_after(bank, settled(how, went_back)),
        ) is Some,
{
}

/// What is said of banked work is what happened to it: that it went back only where it did,
/// that it conflicts only where it did not, that it waits only where it was kept, and nothing
/// where there was none. The bank is gone exactly where the work went back.
pub proof fn what_is_said_of_banked_work_is_true(how: Settle, went_back: bool, bank: Option<Bank>)
    ensures
        settled(how, went_back) == Some(Wip::Reapplied) <==> how == Settle::PutBack && went_back,
        settled(how, went_back) == Some(Wip::Conflicted) <==> how == Settle::PutBack && !went_back,
        settled(how, went_back) == Some(Wip::Banked) <==> how == Settle::Keep,
        settled(how, went_back) is None <==> how == Settle::Nothing,
        bank is Some ==> (bank_after(bank, settled(how, went_back)) is None <==> how
            == Settle::PutBack && went_back),
        bank is None ==> bank_after(bank, settled(how, went_back)) is None,
{
}

/// What a rebase that ran onto a base that may be old says.
pub open spec fn stale_base_text(why: Seq<char>) -> Seq<char> {
    "upstream fetch failed — rebased onto the last-known base ("@ + why + ")"@
}

pub fn stale_base(fetch_error: Option<&str>) -> (r: Option<String>)
    ensures
        opt_text(r) == match opt_str(fetch_error) {
            Some(e) => Some(stale_base_text(e)),
            None => None,
        },
{
    match fetch_error {
        Some(e) => Some(
            cat3("upstream fetch failed — rebased onto the last-known base (", e, ")"),
        ),
        None => None,
    }
}

/// What a rebase that went through has to add: that its base may be old, that the work
/// did not go back, or both.
pub open spec fn rebase_warning(warning: Option<Seq<char>>, wip: Option<Wip>) -> Option<Seq<char>> {
    if wip == Some(Wip::Conflicted) {
        Some(
            match warning {
                Some(w) => w + " · your uncommitted work did not go back; it is banked"@,
                None => "your uncommitted work did not go back; it is banked"@,
            },
        )
    } else {
        warning
    }
}

pub fn rebased(warning: Option<String>, wip: Option<Wip>) -> (r: Option<String>)
    ensures
        opt_text(r) == rebase_warning(opt_text(warning), wip),
{
    match wip {
        Some(Wip::Conflicted) => Some(
            match warning {
                Some(w) => cat2(
                    w.as_str(),
                    " · your uncommitted work did not go back; it is banked",
                ),
                None => "your uncommitted work did not go back; it is banked".to_owned(),
            },
        ),
        _ => warning,
    }
}

/// A warning is passed on whatever became of the work, and that the work did not go back is
/// said exactly where it did not.
pub proof fn a_rebase_warns_of_what_went_wrong(warning: Option<Seq<char>>, wip: Option<Wip>)
    ensures
        rebase_warning(warning, wip) is Some <==> warning is Some || wip == Some(Wip::Conflicted),
        warning is Some ==> warning->Some_0.is_prefix_of(rebase_warning(warning, wip)->Some_0),
        wip != Some(Wip::Conflicted) ==> rebase_warning(warning, wip) == warning,
        wip == Some(Wip::Conflicted) && warning is Some ==> rebase_warning(warning, wip)->Some_0.len()
            > warning->Some_0.len(),
{
    if let Some(w) = warning {
        reveal_strlit(" · your uncommitted work did not go back; it is banked");
        let r = rebase_warning(warning, wip)->Some_0;
        assert(r.subrange(0, w.len() as int) =~= w);
    }
}

/// What a rebase that stopped is answered: git's own account, and where the work is if
/// it is not where it was left.
pub open spec fn rebase_failure(why: Seq<char>, wip: Option<Wip>, workspace: Seq<char>) -> Seq<
    char,
> {
    match wip {
        Some(Wip::Banked) => why + " — your uncommitted work is banked at "@ + bank_ref(workspace)
            + ", and goes back when this ends"@,
        Some(Wip::Conflicted) => why
            + " — and your uncommitted work conflicts with the tree it came back to; it is banked at "@
            + bank_ref(workspace),
        _ => why,
    }
}

pub fn rebase_failed(why: String, wip: Option<Wip>, workspace: &str) -> (r: ApiError)
    ensures
        r@ == Said::Failed(rebase_failure(why@, wip, workspace@)),
{
    match wip {
        Some(Wip::Banked) => {
            let at: String = wip_ref(workspace);
            refuse(
                cat4(
                    why.as_str(),
                    " — your uncommitted work is banked at ",
                    at.as_str(),
                    ", and goes back when this ends",
                ),
            )
        },
        Some(Wip::Conflicted) => {
            let at: String = wip_ref(workspace);
            refuse(
                cat3(
                    why.as_str(),
                    " — and your uncommitted work conflicts with the tree it came back to; it is banked at ",
                    at.as_str(),
                ),
            )
        },
        _ => refuse(why),
    }
}

/// What aborting a rebase does to the bank: what becomes of the work, and the bank that is
/// left.
pub open spec fn aborted(bank: Option<Bank>, known: bool, went_back: bool) -> (
    Option<Wip>,
    Option<Bank>,
) {
    if bank is Some && known {
        (
            settled(Settle::PutBack, went_back),
            bank_after(bank, settled(Settle::PutBack, went_back)),
        )
    } else {
        (None, bank)
    }
}

/// An abort brings banked work home wherever there is a workspace to bring it to: it is out of
/// the bank once it is back, and stays there where it conflicts. Where nothing is banked
/// nothing is said.
pub proof fn an_abort_brings_the_work_home(bank: Bank, known: bool, went_back: bool)
    ensures
        aborted(None, known, went_back) == (None::<Wip>, None::<Bank>),
        aborted(Some(bank), false, went_back) == (None::<Wip>, Some(bank)),
        aborted(Some(bank), true, true) == (Some(Wip::Reapplied), None::<Bank>),
        aborted(Some(bank), true, false) == (Some(Wip::Conflicted), Some(bank)),
{
}

/// A rebase that failed is told with its own reason first, and with where the work is banked
/// exactly where it still is.
pub proof fn a_failed_rebase_says_where_the_work_is(
    why: Seq<char>,
    wip: Option<Wip>,
    workspace: Seq<char>,
)
    ensures
        why.is_prefix_of(rebase_failure(why, wip, workspace)),
        wip == Some(Wip::Banked) || wip == Some(Wip::Conflicted) ==> holds_text(
            rebase_failure(why, wip, workspace),
            bank_ref(workspace),
        ),
        wip != Some(Wip::Banked) && wip != Some(Wip::Conflicted) ==> rebase_failure(
            why,
            wip,
            workspace,
        ) == why,
{
    let r = rebase_failure(why, wip, workspace);
    let b = bank_ref(workspace);
    assert(r.subrange(0, why.len() as int) =~= why);
    if wip == Some(Wip::Banked) {
        let at = (why.len() + " — your uncommitted work is banked at "@.len()) as int;
        assert(r.subrange(at, at + b.len()) =~= b);
        assert(stands_at(r, at, b));
    } else if wip == Some(Wip::Conflicted) {
        let at = r.len() - b.len();
        assert(r.subrange(at as int, at + b.len()) =~= b);
        assert(stands_at(r, at as int, b));
    }
}

/// Whoever is asked to resolve a conflict is told where the work is and how to read it, and
/// whoever is warned of an old base is told why it is old.
pub proof fn a_resolver_is_told_where_the_work_is(
    workspace: Seq<char>,
    sha: Seq<char>,
    why: Seq<char>,
)
    ensures
        holds_text(resolve_text(workspace, sha), bank_ref(workspace)),
        holds_text(resolve_text(workspace, sha), "`git stash show -p "@ + sha + "`"@),
        holds_text(stale_base_text(why), why),
{
    let r = resolve_text(workspace, sha);
    let b = bank_ref(workspace);
    let head =
        "The rebase left my uncommitted work conflicting with the new base. Both sides are in the working tree as conflict markers, and my work as it was is banked at "@;
    assert(r.subrange(head.len() as int, (head.len() + b.len()) as int) =~= b);
    assert(stands_at(r, head.len() as int, b));
    reveal_strlit(" (`git stash show -p ");
    reveal_strlit("`git stash show -p ");
    reveal_strlit("`");
    reveal_strlit(
        "` to read it). Please resolve the conflicts, keep both intents where they can both stand, leave the result uncommitted, and tell me what you kept.",
    );
    let read = "`git stash show -p "@ + sha + "`"@;
    let at = (head.len() + b.len() + 2) as int;
    assert(r.subrange(at, at + read.len()) =~= read);
    assert(stands_at(r, at, read));
    let s = stale_base_text(why);
    let n = "upstream fetch failed — rebased onto the last-known base ("@.len() as int;
    assert(s.subrange(n, n + why.len()) =~= why);
    assert(stands_at(s, n, why));
}

/// What aborting a rebase does to the bank: an abort means undo, so banked work comes
/// home with it, and a conflict keeps the bank.
pub fn rebase_abort(bank: Option<Bank>, known: bool, went_back: bool) -> (r: (
    Option<Wip>,
    Option<Bank>,
))
    ensures
        r == aborted(bank, known, went_back),
{
    if bank.is_some() && known {
        settle(Settle::PutBack, went_back, bank)
    } else {
        (None, bank)
    }
}

// ---------------------------------------------------------------------------
// The bank's own buttons
// ---------------------------------------------------------------------------

/// Why banked work is not put back by hand, if it is not.
pub open spec fn restore_refusal(
    workspace: Seq<char>,
    known: bool,
    banked: bool,
    busy: Option<Seq<char>>,
    conflicted: Seq<Seq<char>>,
) -> Option<Said> {
    if bank_refusal(workspace, known, banked) is Some {
        bank_refusal(workspace, known, banked)
    } else if busy is Some {
        Some(Said::Busy(busy->Some_0 + " is working here; wait for the turn to finish"@))
    } else if conflicted.len() > 0 {
        Some(
            Said::Failed(
                "settle the conflict in "@ + three_of(conflicted)
                    + " first — git cannot apply anything over unmerged paths"@,
            ),
        )
    } else {
        None
    }
}

/// Whether banked work may be put back by hand.
pub fn wip_restore(
    workspace: &str,
    known: bool,
    bank: Option<&Bank>,
    busy: Option<&str>,
    conflicted: &Vec<String>,
) -> (r: Result<(), ApiError>)
    ensures
        match restore_refusal(
            workspace@,
            known,
            bank is Some,
            opt_str(busy),
            texts(conflicted@),
        ) {
            Some(why) => r is Err && r->Err_0@ == why,
            None => r is Ok,
        },
{
    match banked_at(workspace, known, bank) {
        Err(e) => {
            return Err(e);
        },
        Ok(_) => {},
    }
    match busy {
        Some(who) => {
            return Err(
                refuse_busy(cat2(who, " is working here; wait for the turn to finish")),
            );
        },
        None => {},
    }
    if conflicted.len() > 0 {
        let names: String = first_three(conflicted);
        return Err(
            refuse(
                cat3(
                    "settle the conflict in ",
                    names.as_str(),
                    " first — git cannot apply anything over unmerged paths",
                ),
            ),
        );
    }
    Ok(())
}

/// What putting work back by hand comes to: the bank is gone, or stands and is named.
pub fn restored(workspace: &str, bank: Bank, failure: Option<&str>) -> (r: (
    Option<Bank>,
    Result<(), ApiError>,
))
    ensures
        r.0 is Some <==> failure is Some,
        r.1 is Ok <==> failure is None,
        match opt_str(failure) {
            None => r.0 is None && r.1 is Ok,
            Some(e) => r.0 == Some(bank) && r.1 is Err && r.1->Err_0@ == Said::Failed(
                e + " — it is still banked at "@ + bank_ref(workspace@),
            ),
        },
{
    match failure {
        None => (None, Ok(())),
        Some(e) => {
            let at: String = wip_ref(workspace);
            (Some(bank), Err(refuse(cat3(e, " — it is still banked at ", at.as_str()))))
        },
    }
}

/// The commit that discarding a bank leaves dangling, for the answer to name.
pub fn wip_discard(workspace: &str, known: bool, bank: Option<&Bank>) -> (r: Result<
    String,
    ApiError,
>)
    ensures
        match bank_refusal(workspace@, known, bank is Some) {
            Some(why) => r is Err && r->Err_0@ == why,
            None => r is Ok && bank is Some && r->Ok_0 == bank->Some_0.sha,
        },
{
    match banked_at(workspace, known, bank) {
        Ok(b) => Ok(b.sha),
        Err(e) => Err(e),
    }
}

/// What the session in a workspace is asked to do about a conflict.
pub open spec fn resolve_text(workspace: Seq<char>, sha: Seq<char>) -> Seq<char> {
    "The rebase left my uncommitted work conflicting with the new base. Both sides are in the working tree as conflict markers, and my work as it was is banked at "@
        + bank_ref(workspace) + " (`git stash show -p "@ + sha
        + "` to read it). Please resolve the conflicts, keep both intents where they can both stand, leave the result uncommitted, and tell me what you kept."@
}

/// Why a conflict is not handed on, if it is not.
pub open spec fn resolve_refusal(workspace: Seq<char>, banked: bool, live: bool) -> Option<Said> {
    if !banked {
        Some(Said::Failed(workspace + " has nothing banked"@))
    } else if !live {
        Some(
            Said::Failed(
                "no live session in "@ + workspace + " — open one here and press again"@,
            ),
        )
    } else {
        None
    }
}

/// What to type at the session that is already in a workspace, so that it resolves the
/// conflict: it tells, it does not spawn.
pub fn wip_resolve(workspace: &str, bank: Option<&Bank>, live: bool) -> (r: Result<
    String,
    ApiError,
>)
    ensures
        match resolve_refusal(workspace@, bank is Some, live) {
            Some(why) => r is Err && r->Err_0@ == why,
            None => r is Ok && bank is Some && r->Ok_0@ == resolve_text(
                workspace@,
                bank->Some_0.sha@,
            ),
        },
{
    match bank {
        None => Err(refuse(cat2(workspace, " has nothing banked"))),
        Some(b) => {
            if !live {
                return Err(
                    refuse(
                        cat3(
                            "no live session in ",
                            workspace,
                            " — open one here and press again",
                        ),
                    ),
                );
            }
            let at: String = wip_ref(workspace);
            Ok(
                cat5(
                    "The rebase left my uncommitted work conflicting with the new base. Both sides are in the working tree as conflict markers, and my work as it was is banked at ",
                    at.as_str(),
                    " (`git stash show -p ",
                    b.sha.as_str(),
                    "` to read it). Please resolve the conflicts, keep both intents where they can both stand, leave the result uncommitted, and tell me what you kept.",
                ),
            )
        },
    }
}

/// Each of the bank's buttons works wherever it can. Banked work is put back by hand in a
/// known workspace that has any, with nobody mid-turn and no conflict; a bank is acted on
/// wherever there is one; and a conflict is handed on wherever there is a bank and somebody
/// to hand it to.
pub proof fn the_banks_buttons_work_wherever_they_can(
    workspace: Seq<char>,
    known: bool,
    banked: bool,
    busy: Option<Seq<char>>,
    conflicted: Seq<Seq<char>>,
    live: bool,
)
    ensures
        bank_refusal(workspace, known, banked) is None <==> known && banked,
        restore_refusal(workspace, known, banked, busy, conflicted) is None <==> known && banked
            && busy is None && conflicted.len() == 0,
        restore_refusal(workspace, known, banked, busy, conflicted) matches Some(Said::Busy(_))
            <==> known && banked && busy is Some,
        resolve_refusal(workspace, banked, live) is None <==> banked && live,
{
}

/// Every workspace's work is parked under a name of its own.
pub proof fn no_two_workspaces_share_a_bank(one: Seq<char>, other: Seq<char>)
    ensures
        bank_ref(one) == bank_ref(other) ==> one == other,
        one.is_suffix_of(bank_ref(one)),
{
    let n = bank_ref(Seq::empty()).len() as int;
    assert(bank_ref(one).skip(n) =~= one);
    assert(bank_ref(other).skip(n) =~= other);
    assert(bank_ref(one).subrange(n, bank_ref(one).len() as int) =~= one);
}

/// How far into a rebase a step stands.
pub open spec fn rebase_turn(step: RebaseStep) -> int {
    match step {
        RebaseStep::Check => 0,
        RebaseStep::Bank => 1,
        RebaseStep::Fetch => 2,
        RebaseStep::Rebase => 3,
        RebaseStep::LookForStopped => 4,
        RebaseStep::PutBack => 5,
        RebaseStep::Reconcile => 6,
    }
}

#[verifier::spinoff_prover]
#[verifier::rlimit(50)]
proof fn lemma_rebase_turns(
    steps: Seq<(RebaseStep, bool, RebaseSeen)>,
    clean: bool,
    i: int,
    j: int,
)
    requires
        is_rebase(steps, clean),
        0 <= i < j < steps.len(),
    ensures
        rebase_turn(steps[i].0) < rebase_turn(steps[j].0),
    decreases j - i,
{
    assert(Some(steps[j].0) == rebase_after(
        Some(steps[j - 1].0),
        steps[j - 1].1,
        steps[j].2,
    ));
    if i < j - 1 {
        lemma_rebase_turns(steps, clean, i, j - 1);
    }
}

/// Every rebase starts with its check and does no step twice. It stops where the check or the
/// parking failed, and nowhere else before the tree has been read again.
pub proof fn a_rebase_never_goes_back(
    steps: Seq<(RebaseStep, bool, RebaseSeen)>,
    clean: bool,
    ok: bool,
    seen: RebaseSeen,
    i: int,
    j: int,
)
    ensures
        rebase_after(None, ok, seen) == Some(RebaseStep::Check),
        is_rebase(steps, clean) && 0 <= i < j < steps.len() ==> steps[i].0 != steps[j].0,
        is_rebase(steps, clean) && 0 <= i < steps.len() && !steps[i].1 && (steps[i].0 is Check
            || steps[i].0 is Bank) ==> i == steps.len() - 1,
        is_rebase(steps, clean) && steps.len() > 0 && is_rebase_over(steps, seen)
            ==> steps.last().0 is Reconcile || (!steps.last().1 && (steps.last().0 is Check
            || steps.last().0 is Bank)),
{
    if is_rebase(steps, clean) && 0 <= i < j < steps.len() {
        lemma_rebase_turns(steps, clean, i, j);
    }
    if is_rebase(steps, clean) && 0 <= i < steps.len() - 1 {
        assert(Some(steps[i + 1].0) == rebase_after(
            Some(steps[i].0),
            steps[i].1,
            steps[i + 1].2,
        ));
    }
}

/// A rebase and the bank wait for a turn that is going on, and a rebase for one that stopped
/// part-way; any other refusal is for good.
pub proof fn only_work_in_hand_is_waited_for(
    workspace: Seq<char>,
    known: bool,
    mid_rebase: bool,
    conflicted: Seq<Seq<char>>,
    busy: Option<Seq<char>>,
    bank: Option<Bank>,
    banked: bool,
    live: bool,
)
    ensures
        rebase_refusal(workspace, known, mid_rebase, conflicted, busy, bank) matches Some(w) ==> (
        w.status() == 409 <==> known && (mid_rebase || (conflicted.len() == 0 && busy is Some)))
            && w.status() != 404,
        restore_refusal(workspace, known, banked, busy, conflicted) matches Some(w) ==> (w.status()
            == 409 <==> known && banked && busy is Some) && w.status() != 404,
        bank_refusal(workspace, known, banked) matches Some(w) ==> w.status() == 400,
        resolve_refusal(workspace, banked, live) matches Some(w) ==> w.status() == 400,
{
}

/// Work is banked among the daemon's own refs, under its workspace's name; what became of it is
/// said in one word, and of the paths in the way the first three are named.
pub proof fn the_bank_is_spoken_of_plainly(workspace: Seq<char>, paths: Seq<Seq<char>>)
    ensures
        bank_ref(workspace) == "refs/orchd/wip/"@ + workspace,
        Wip::Banked.word() == "banked"@,
        Wip::Reapplied.word() == "reapplied"@,
        Wip::Conflicted.word() == "conflicted"@,
        paths.len() <= 3 ==> three_of(paths) == joined(paths, ", "@),
        paths.len() > 3 ==> three_of(paths) == paths[0] + ", "@ + paths[1] + ", "@ + paths[2],
{
    if paths.len() > 3 {
        let p = paths.take(3);
        assert(p.drop_last() =~= paths.take(2));
        assert(paths.take(2).drop_last() =~= paths.take(1));
        assert(joined(paths.take(1), ", "@) == paths[0]);
        assert(joined(paths.take(2), ", "@) == paths[0] + ", "@ + paths[1]);
        assert(joined(p, ", "@) == paths[0] + ", "@ + paths[1] + ", "@ + paths[2]);
    }
}

} // verus!
