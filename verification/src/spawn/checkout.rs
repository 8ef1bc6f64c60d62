//! Who holds the main checkout and a PR's branch, and what may move them.

use vstd::prelude::*;
use vstd::string::*;
use crate::api::{refuse, ApiError, Said};
use crate::ids::{short, short_id};
use crate::model::SessionId;
use crate::paths::{file_name, file_name_of, inside, path_in};
use crate::spawn::{name_refusal, validate_worktree_name};
use crate::text::{
    cat2, cat3, cat5, decimal, number, opt_str, opt_text, same, same_opt,
};

verus! {

/// The worktree that makes a branch busy: the one that holds it, if a session is live
/// there.
pub fn branch_busy(holding: Option<&str>, live_there: bool) -> (r: Option<String>)
    ensures
        opt_text(r) == if live_there {
            opt_str(holding)
        } else {
            None
        },
        r is Some <==> holding is Some && live_there,
{
    match holding {
        Some(ws) => if live_there {
            Some(ws.to_owned())
        } else {
            None
        },
        None => None,
    }
}

/// Where a branch is recorded.
pub open spec fn recorded_at(holding: Option<String>, path: Option<String>) -> Option<
    (String, String),
> {
    match (holding, path) {
        (Some(w), Some(p)) => Some((w, p)),
        _ => None,
    }
}

/// Where a branch is recorded, whether or not the tree is still there: the worktree that
/// holds it, and the path that goes with it.
pub fn recorded_worktree_for(holding: Option<String>, path: Option<String>) -> (r: Option<
    (String, String),
>)
    ensures
        r == recorded_at(holding, path),
{
    match (holding, path) {
        (Some(w), Some(p)) => Some((w, p)),
        _ => None,
    }
}

/// Whether the main checkout has this branch checked out. One that could not be read
/// has not.
pub fn main_is_on(branch: Option<&str>, head_ref: &str) -> (r: bool)
    ensures
        r == (opt_str(branch) == Some(head_ref@)),
{
    same_opt(branch, Some(head_ref))
}

/// What a PR flow is told while a session is live in a main that holds its branch.
pub open spec fn main_busy_text(pr: u64, head_ref: Seq<char>) -> Seq<char> {
    "the main checkout is on "@ + head_ref
        + " and a session is still open there, so the branch cannot move out of it — and git will not check a branch out twice, which leaves no worktree to cut for #"@
        + decimal(pr as nat)
        + ". Close that session, or move it out of main from its context menu, and try again."@
}

/// Refuse a PR flow only when main holds something that cannot be moved.
pub fn refuse_if_main_is_busy(live_in_main: bool, pr: u64, head_ref: &str) -> (r: Result<
    (),
    ApiError,
>)
    ensures
        if live_in_main {
            r is Err && r->Err_0@ == Said::Failed(main_busy_text(pr, head_ref@))
        } else {
            r is Ok
        },
{
    if !live_in_main {
        return Ok(());
    }
    let n: String = number(pr);
    Err(
        refuse(
            cat5(
                "the main checkout is on ",
                head_ref,
                " and a session is still open there, so the branch cannot move out of it — and git will not check a branch out twice, which leaves no worktree to cut for #",
                n.as_str(),
                ". Close that session, or move it out of main from its context menu, and try again.",
            ),
        ),
    )
}

/// Why the main checkout is not switched to a PR's branch, if it is not.
pub open spec fn switch_refusal(occupant: Option<SessionId>, clean: bool) -> Option<Said> {
    match occupant {
        Some(held) => Some(
            Said::Failed(
                "a session already holds main ("@ + short(held)
                    + "); end it before moving the checkout"@,
            ),
        ),
        None => if clean {
            None
        } else {
            Some(
                Said::Failed(
                    "the main checkout has uncommitted changes; commit or stash them first"@,
                ),
            )
        },
    }
}

/// Whether the main checkout may be moved onto a PR's branch: nobody holds it, and
/// nothing in it is uncommitted.
pub fn switch_main_to_pr(occupant: Option<SessionId>, clean: bool) -> (r: Result<(), ApiError>)
    ensures
        match switch_refusal(occupant, clean) {
            None => r is Ok,
            Some(why) => r is Err && r->Err_0@ == why,
        },
{
    match occupant {
        Some(held) => {
            let eight: String = short_id(&held);
            Err(
                refuse(
                    cat3(
                        "a session already holds main (",
                        eight.as_str(),
                        "); end it before moving the checkout",
                    ),
                ),
            )
        },
        None => if clean {
            Ok(())
        } else {
            Err(
                refuse(
                    "the main checkout has uncommitted changes; commit or stash them first".to_owned(),
                ),
            )
        },
    }
}

/// Main is switched to a PR's branch wherever nobody holds it and nothing in it is
/// uncommitted, and nowhere else; a PR's flow is stopped by main only while somebody is live
/// there.
pub proof fn a_free_clean_main_may_be_switched(occupant: Option<SessionId>, clean: bool)
    ensures
        switch_refusal(occupant, clean) is None <==> occupant is None && clean,
{
}

// ---------------------------------------------------------------------------
// Parking main
// ---------------------------------------------------------------------------

/// What parking main does next.
#[derive(Debug, Clone, Copy, PartialEq, Eq, Structural)]
pub enum Park {
    /// Leave main where it is.
    Stay,
    /// Read main's base, branch and tree, and who holds the base.
    Measure,
    /// Take the base off the worktree that sits on it.
    Release,
    /// The worktree gave the base away, so it is no longer recorded on it.
    Forget,
    /// Move main onto its base.
    Switch,
    /// Measure main again: it moved.
    Reconcile,
}

/// Who has main's base checked out, beside main itself.
#[derive(Debug, Clone, Copy, PartialEq, Eq, Structural)]
pub enum Holder {
    Nobody,
    /// A tree the daemon does not manage.
    Stranger,
    /// A worktree with a live session in it.
    Busy,
    /// A worktree nobody is working in.
    Idle,
}

/// What parking main learned.
#[derive(Debug, Clone, Copy, PartialEq, Eq, Structural)]
pub enum ParkNews {
    /// Somebody may be done with main.
    Asked { shutting_down: bool, live_in_main: bool, swap_free: bool },
    /// Whether main can park at all, and who is in the way.
    Measured { parkable: bool, holder: Holder },
    /// Whether the base was let go of.
    Released { ok: bool },
    /// The worktree's record no longer names the base.
    Forgotten,
    /// Whether main moved.
    Switched { moved: bool },
}

/// What follows each thing learned.
pub open spec fn park_after(news: ParkNews) -> Park {
    match news {
        ParkNews::Asked { shutting_down, live_in_main, swap_free } => if shutting_down
            || live_in_main || !swap_free {
            Park::Stay
        } else {
            Park::Measure
        },
        ParkNews::Measured { parkable, holder } => if !parkable {
            Park::Stay
        } else {
            match holder {
                Holder::Nobody => Park::Switch,
                Holder::Idle => Park::Release,
                Holder::Busy => Park::Stay,
                Holder::Stranger => Park::Stay,
            }
        },
        ParkNews::Released { ok } => if ok {
            Park::Forget
        } else {
            Park::Stay
        },
        ParkNews::Forgotten => Park::Switch,
        ParkNews::Switched { moved } => if moved {
            Park::Reconcile
        } else {
            Park::Stay
        },
    }
}

/// Send the main checkout back to the base branch once nobody is working in it: the
/// next thing to do for what was just learned.
pub fn park_main(news: ParkNews) -> (r: Park)
    ensures
        r == park_after(news),
{
    match news {
        ParkNews::Asked { shutting_down, live_in_main, swap_free } => if shutting_down
            || live_in_main || !swap_free {
            Park::Stay
        } else {
            Park::Measure
        },
        ParkNews::Measured { parkable, holder } => if !parkable {
            Park::Stay
        } else {
            match holder {
                Holder::Nobody => Park::Switch,
                Holder::Idle => Park::Release,
                Holder::Busy => Park::Stay,
                Holder::Stranger => Park::Stay,
            }
        },
        ParkNews::Released { ok } => if ok {
            Park::Forget
        } else {
            Park::Stay
        },
        ParkNews::Forgotten => Park::Switch,
        ParkNews::Switched { moved } => if moved {
            Park::Reconcile
        } else {
            Park::Stay
        },
    }
}

/// The question a piece of news answers.
pub open spec fn answers(act: Park, news: ParkNews) -> bool {
    match news {
        ParkNews::Asked { .. } => false,
        ParkNews::Measured { .. } => act == Park::Measure,
        ParkNews::Released { .. } => act == Park::Release,
        ParkNews::Forgotten => act == Park::Forget,
        ParkNews::Switched { .. } => act == Park::Switch,
    }
}

/// A run of parking: it starts with being asked, and each later piece of news answers
/// what was done last.
pub open spec fn is_parking(news: Seq<ParkNews>) -> bool {
    &&& news.len() > 0
    &&& news[0] is Asked
    &&& forall|i: int|
        0 < i < news.len() ==> answers(park_after(news[i - 1]), #[trigger] news[i])
}

/// Nothing moves unless everything can: a branch is taken off a worktree, or main is
/// moved, only after nobody was live in main, no swap was under way, main was measured
/// as able to park, and whoever held its base was a worktree that nobody works in.
pub proof fn nothing_moves_unless_everything_can(news: Seq<ParkNews>, i: int)
    requires
        is_parking(news),
        0 <= i < news.len(),
        park_after(news[i]) == Park::Release || park_after(news[i]) == Park::Forget || park_after(
            news[i],
        ) == Park::Switch,
    ensures
        i > 0,
        news[0] == (ParkNews::Asked { shutting_down: false, live_in_main: false, swap_free: true }),
        news[1] matches ParkNews::Measured { parkable: true, holder } && (holder == Holder::Nobody
            || holder == Holder::Idle),
{
    assert(answers(park_after(news[i - 1]), news[i]));
    if news[i] is Released || news[i] is Forgotten {
        assert(answers(park_after(news[i - 2]), news[i - 1]));
        if news[i] is Forgotten {
            assert(answers(park_after(news[i - 3]), news[i - 2]));
        }
    }
}

/// Whether main can go back to its base: the base is known, main is on another branch,
/// and its tree is clean. What could not be read stops it.
pub open spec fn can_park(base: Option<Seq<char>>, on: Option<Seq<char>>, clean: Option<bool>)
    -> bool {
    base is Some && on is Some && on != base && clean == Some(true)
}

pub fn parkable(base: Option<&str>, on: Option<&str>, clean: Option<bool>) -> (r: bool)
    ensures
        r == can_park(opt_str(base), opt_str(on), clean),
{
    match (base, on) {
        (Some(b), Some(o)) => !same(o, b) && matches!(clean, Some(true)),
        _ => false,
    }
}

/// Main goes back to its base wherever it can: where the base is known, main is on another
/// branch, and its tree is clean; and nothing that could not be read lets it.
pub proof fn a_clean_main_off_its_base_can_park(base: Seq<char>, on: Seq<char>)
    ensures
        can_park(Some(base), Some(on), Some(true)) <==> on != base,
        !can_park(Some(base), Some(on), Some(false)),
        !can_park(Some(base), Some(on), None),
        !can_park(None, Some(on), Some(true)),
        !can_park(Some(base), None, Some(true)),
{
}

pub open spec fn holder_is(
    tree: Option<Seq<char>>,
    main: Seq<char>,
    managed: bool,
    live: bool,
) -> Holder {
    if tree is None || tree == Some(main) {
        Holder::Nobody
    } else if !managed {
        Holder::Stranger
    } else if live {
        Holder::Busy
    } else {
        Holder::Idle
    }
}

/// A tree that holds main's base has it taken away only where it is a worktree of the
/// daemon's that nobody works in, and main itself is in nobody's way.
pub proof fn only_an_idle_worktree_gives_the_base_up(
    tree: Option<Seq<char>>,
    main: Seq<char>,
    managed: bool,
    live: bool,
)
    ensures
        park_after(
            ParkNews::Measured { parkable: true, holder: holder_is(tree, main, managed, live) },
        ) == Park::Release <==> tree is Some && tree->Some_0 != main && managed && !live,
        park_after(
            ParkNews::Measured { parkable: true, holder: holder_is(tree, main, managed, live) },
        ) == Park::Switch <==> tree is None || tree->Some_0 == main,
        park_after(
            ParkNews::Measured { parkable: false, holder: holder_is(tree, main, managed, live) },
        ) == Park::Stay,
{
}

/// Main is parked wherever it can be: once nobody is live there, nothing shuts down, no swap
/// is under way, it can park, and its base is free or was let go of. Then it is switched,
/// and measured again where it moved.
pub proof fn main_is_parked_wherever_it_can_be(news: Seq<ParkNews>, holder: Holder, moved: bool)
    requires
        is_parking(news),
        news[0] == (ParkNews::Asked { shutting_down: false, live_in_main: false, swap_free: true }),
        holder == Holder::Nobody || holder == Holder::Idle,
    ensures
        park_after(news[0]) == Park::Measure,
        news.len() > 1 && news[1] == (ParkNews::Measured { parkable: true, holder }) ==> park_after(
            news[1],
        ) == if holder == Holder::Nobody {
            Park::Switch
        } else {
            Park::Release
        },
        park_after(ParkNews::Released { ok: true }) == Park::Forget,
        park_after(ParkNews::Released { ok: false }) == Park::Stay,
        park_after(ParkNews::Forgotten) == Park::Switch,
        park_after(ParkNews::Switched { moved }) == Park::Reconcile <==> moved,
{
}

/// Who holds main's base: `tree` is the checkout that git names, `managed` whether it is
/// a workspace of the daemon's, and `live` whether a session is live there.
pub fn base_holder(tree: Option<&str>, main: &str, managed: bool, live: bool) -> (r: Holder)
    ensures
        r == holder_is(opt_str(tree), main@, managed, live),
{
    match tree {
        None => Holder::Nobody,
        Some(t) => if same(t, main) {
            Holder::Nobody
        } else if !managed {
            Holder::Stranger
        } else if live {
            Holder::Busy
        } else {
            Holder::Idle
        },
    }
}

/// The branch a worktree is put on when main takes its base back, before it is made
/// unique.
pub fn released_stem(tree: &str) -> (r: String)
    ensures
        r@ == "worktree-"@ + match file_name_of(tree@) {
            Some(n) => n,
            None => ""@,
        },
{
    match file_name(tree) {
        Some(n) => cat2("worktree-", n.as_str()),
        None => cat2("worktree-", ""),
    }
}

// ---------------------------------------------------------------------------
// A worktree for a PR
// ---------------------------------------------------------------------------

/// What a PR's worktree is called where its branch is recorded in none.
pub open spec fn pr_tree_name(pr: u64) -> Seq<char> {
    "pr-"@ + decimal(pr as nat)
}

/// Whether this is the name and the path of a PR's worktree.
pub open spec fn is_pr_place(
    recorded: Option<(String, String)>,
    pr: u64,
    worktrees: Seq<char>,
    r: (String, String),
) -> bool {
    match recorded {
        Some(known) => r == known,
        None => r.0@ == pr_tree_name(pr) && r.1@ == inside(worktrees, pr_tree_name(pr)),
    }
}

/// A tree that is gone comes back where its branch is recorded, under the name it had; a PR
/// without one gets a place of its own among the worktrees. Half a record is none.
pub proof fn a_tree_comes_back_where_it_stood(
    w: String,
    p: String,
    pr: u64,
    worktrees: Seq<char>,
    r: (String, String),
)
    ensures
        recorded_at(Some(w), Some(p)) == Some((w, p)),
        recorded_at(Some(w), None) is None,
        recorded_at(None, Some(p)) is None,
        is_pr_place(Some((w, p)), pr, worktrees, r) ==> r.0 == w && r.1 == p,
        is_pr_place(None, pr, worktrees, r) ==> r.0@ == "pr-"@ + decimal(pr as nat) && r.1@ == inside(
            worktrees,
            r.0@,
        ),
{
}

/// The name and the path of a PR's worktree: those its branch is recorded under, so that
/// a tree that is gone comes back where it stood, else ones of its own among the
/// worktrees.
pub fn pr_worktree_at(recorded: Option<(String, String)>, pr: u64, worktrees: &str) -> (r: (
    String,
    String,
))
    ensures
        is_pr_place(recorded, pr, worktrees@, r),
{
    match recorded {
        Some(known) => known,
        None => {
            let n: String = number(pr);
            let name: String = cat2("pr-", n.as_str());
            let path: String = path_in(worktrees, name.as_str());
            (name, path)
        },
    }
}

/// How a PR gets its worktree.
#[derive(Debug, Clone, Copy, PartialEq, Eq, Structural)]
pub enum PrTree {
    /// It is recorded and stands.
    Standing,
    /// Something stands at its path already: only record it.
    Record,
    /// Main holds the branch: take the swap's lock and look again.
    LookUnderLock,
    /// Cut it on the branch.
    Cut,
    /// Move the branch and its work out of main into it.
    MoveOut,
}

/// How a PR gets its worktree, by the first look.
pub open spec fn first_way(standing: bool, taken: bool, main_on: bool) -> PrTree {
    if standing {
        PrTree::Standing
    } else if taken {
        PrTree::Record
    } else if main_on {
        PrTree::LookUnderLock
    } else {
        PrTree::Cut
    }
}

/// A tree that stands is used and nothing is done to it; what is at the path already is put
/// on record and not cut over; main is looked at under the lock exactly where it holds the
/// branch and a tree has to be made; and otherwise one is cut.
pub proof fn a_pr_gets_its_tree_the_gentlest_way(standing: bool, taken: bool, main_on: bool)
    ensures
        first_way(standing, taken, main_on) == PrTree::Standing <==> standing,
        first_way(standing, taken, main_on) == PrTree::Record <==> !standing && taken,
        first_way(standing, taken, main_on) == PrTree::LookUnderLock <==> !standing && !taken
            && main_on,
        first_way(standing, taken, main_on) == PrTree::Cut <==> !standing && !taken && !main_on,
        way_steps(PrTree::Standing).len() == 0,
        way_steps(PrTree::LookUnderLock).len() == 0,
        way_steps(PrTree::Record) == seq![PrTreeStep::Register],
{
}

/// Whatever way a tree is made, it is put through the hooks once it is there and on record
/// last. A branch that main holds is moved out with its work and never cut a second time, and
/// main is recorded without it and measured again.
pub proof fn a_made_tree_is_hooked_and_recorded(how: PrTree)
    requires
        how == PrTree::Cut || how == PrTree::MoveOut,
    ensures
        way_steps(how).last() == PrTreeStep::Register,
        way_steps(how)[way_steps(how).len() - 2] == PrTreeStep::RunHooks,
        way_steps(how)[0] == if how == PrTree::Cut {
            PrTreeStep::CutTree
        } else {
            PrTreeStep::MoveBranchOut
        },
        way_steps(how).contains(PrTreeStep::CutTree) <==> how == PrTree::Cut,
        way_steps(how).contains(PrTreeStep::MoveBranchOut) <==> how == PrTree::MoveOut,
        way_steps(how).contains(PrTreeStep::ForgetInMain) <==> how == PrTree::MoveOut,
        way_steps(how).contains(PrTreeStep::ReconcileMain) <==> how == PrTree::MoveOut,
        way_steps(how).no_duplicates(),
{
    let s = way_steps(how);
    if how == PrTree::MoveOut {
        assert(s[0] == PrTreeStep::MoveBranchOut && s[1] == PrTreeStep::ForgetInMain && s[2]
            == PrTreeStep::ReconcileMain);
    } else {
        assert(s[0] == PrTreeStep::CutTree);
    }
}

/// The first decision: `standing` is whether the recorded tree is a directory, `taken`
/// whether anything is at the path, and `main_on` whether main is on the branch. A tree
/// that stands is used under whatever name it has; a new one needs a valid name.
pub fn pr_worktree_first(name: &str, standing: bool, taken: bool, main_on: bool) -> (r: Result<
    PrTree,
    ApiError,
>)
    ensures
        if standing {
            r == Ok::<PrTree, ApiError>(PrTree::Standing)
        } else {
            match name_refusal(name@) {
                Some(why) => r is Err && r->Err_0@ == why,
                None => r == Ok::<PrTree, ApiError>(first_way(standing, taken, main_on)),
            }
        },
        r is Ok ==> r->Ok_0 == first_way(standing, taken, main_on),
{
    if standing {
        return Ok(PrTree::Standing);
    }
    match validate_worktree_name(name) {
        Err(e) => {
            return Err(e);
        },
        Ok(()) => {},
    }
    if taken {
        Ok(PrTree::Record)
    } else if main_on {
        Ok(PrTree::LookUnderLock)
    } else {
        Ok(PrTree::Cut)
    }
}

pub open spec fn no_base_text(base_ref: Seq<char>) -> Seq<char> {
    "no base branch to put main back on — "@ + base_ref + " has not been fetched"@
}

pub fn no_base(base_ref: &str) -> (r: ApiError)
    ensures
        r@ == Said::Failed(no_base_text(base_ref@)),
{
    refuse(cat3("no base branch to put main back on — ", base_ref, " has not been fetched"))
}

/// Why a branch does not leave main for its worktree, if it does not.
pub open spec fn move_out_refusal(
    lock_free: bool,
    main_on: bool,
    live_in_main: bool,
    base_known: bool,
    pr: u64,
    head_ref: Seq<char>,
    base_ref: Seq<char>,
) -> Option<Said> {
    if !lock_free {
        Some(
            Said::Failed(
                "the main checkout is on #"@ + decimal(pr as nat)
                    + "'s branch and a swap is already moving it; give it a moment and look at the rail before asking again"@,
            ),
        )
    } else if !main_on {
        None
    } else if live_in_main {
        Some(Said::Failed(main_busy_text(pr, head_ref)))
    } else if !base_known {
        Some(Said::Failed(no_base_text(base_ref)))
    } else {
        None
    }
}

/// A branch moves out of main wherever main is on it, the lock is free, nobody is live there
/// and there is a base to put main back on; and where main is no longer on it, nothing but
/// the lock is in the way of cutting a tree.
pub proof fn a_branch_leaves_an_idle_main(
    lock_free: bool,
    main_on: bool,
    live_in_main: bool,
    base_known: bool,
    pr: u64,
    head_ref: Seq<char>,
    base_ref: Seq<char>,
)
    ensures
        move_out_refusal(lock_free, main_on, live_in_main, base_known, pr, head_ref, base_ref)
            is None <==> lock_free && (!main_on || (!live_in_main && base_known)),
{
}

/// How a PR gets its tree once the lock is held.
pub open spec fn locked_way(main_on: bool) -> PrTree {
    if main_on {
        PrTree::MoveOut
    } else {
        PrTree::Cut
    }
}

/// A branch moves out of main exactly where main is on it, and is cut a tree otherwise; and
/// every PR's tree has a name of its own.
pub proof fn a_branch_moves_out_only_from_where_it_is(main_on: bool, a: u64, b: u64)
    ensures
        locked_way(main_on) is MoveOut <==> main_on,
        locked_way(main_on) is Cut <==> !main_on,
        pr_tree_name(a) == "pr-"@ + decimal(a as nat),
        pr_tree_name(a) == pr_tree_name(b) ==> a == b,
{
    let n = "pr-"@.len() as int;
    assert(pr_tree_name(a).skip(n) =~= decimal(a as nat));
    assert(pr_tree_name(b).skip(n) =~= decimal(b as nat));
    crate::text::a_number_is_written_with_its_digits(a as nat);
    crate::text::a_number_is_written_with_its_digits(b as nat);
}

/// The second decision, with the lock held: the branch moves out of main only where
/// main is still on it, nobody is live there, and there is a base to put main back on.
pub fn pr_worktree_locked(
    lock_free: bool,
    main_on: bool,
    live_in_main: bool,
    base_known: bool,
    pr: u64,
    head_ref: &str,
    base_ref: &str,
) -> (r: Result<PrTree, ApiError>)
    ensures
        match move_out_refusal(
            lock_free,
            main_on,
            live_in_main,
            base_known,
            pr,
            head_ref@,
            base_ref@,
        ) {
            Some(why) => r is Err && r->Err_0@ == why,
            None => r == Ok::<PrTree, ApiError>(locked_way(main_on)),
        },
{
    if !lock_free {
        let n: String = number(pr);
        return Err(
            refuse(
                cat3(
                    "the main checkout is on #",
                    n.as_str(),
                    "'s branch and a swap is already moving it; give it a moment and look at the rail before asking again",
                ),
            ),
        );
    }
    if !main_on {
        return Ok(PrTree::Cut);
    }
    match refuse_if_main_is_busy(live_in_main, pr, head_ref) {
        Err(e) => {
            return Err(e);
        },
        Ok(()) => {},
    }
    if !base_known {
        return Err(no_base(base_ref));
    }
    Ok(PrTree::MoveOut)
}

/// The steps that make a PR's worktree.
#[derive(Debug, Clone, Copy, PartialEq, Eq, Structural)]
pub enum PrTreeStep {
    MoveBranchOut,
    /// Main gave the branch away.
    ForgetInMain,
    ReconcileMain,
    CutTree,
    RunHooks,
    Register,
}

pub open spec fn way_steps(how: PrTree) -> Seq<PrTreeStep> {
    match how {
        PrTree::Standing => Seq::<PrTreeStep>::empty(),
        PrTree::Record => seq![PrTreeStep::Register],
        PrTree::LookUnderLock => Seq::<PrTreeStep>::empty(),
        PrTree::Cut => seq![PrTreeStep::CutTree, PrTreeStep::RunHooks, PrTreeStep::Register],
        PrTree::MoveOut => seq![
            PrTreeStep::MoveBranchOut,
            PrTreeStep::ForgetInMain,
            PrTreeStep::ReconcileMain,
            PrTreeStep::RunHooks,
            PrTreeStep::Register,
        ],
    }
}

/// The steps that make a PR's worktree, in order: hooks run only on a tree that was just
/// made.
pub fn ensure_pr_worktree(how: PrTree) -> (r: Vec<PrTreeStep>)
    ensures
        r@ == way_steps(how),
{
    let mut out: Vec<PrTreeStep> = Vec::new();
    match how {
        PrTree::Standing => {},
        PrTree::Record => {
            out.push(PrTreeStep::Register);
        },
        PrTree::LookUnderLock => {},
        PrTree::Cut => {
            out.push(PrTreeStep::CutTree);
            out.push(PrTreeStep::RunHooks);
            out.push(PrTreeStep::Register);
        },
        PrTree::MoveOut => {
            out.push(PrTreeStep::MoveBranchOut);
            out.push(PrTreeStep::ForgetInMain);
            out.push(PrTreeStep::ReconcileMain);
            out.push(PrTreeStep::RunHooks);
            out.push(PrTreeStep::Register);
        },
    }
    out
}

/// A checkout that is refused is refused for good: what stands in its way is somebody's to
/// settle.
pub proof fn a_checkout_is_refused_for_good(
    occupant: Option<SessionId>,
    clean: bool,
    lock_free: bool,
    main_on: bool,
    live_in_main: bool,
    base_known: bool,
    pr: u64,
    head_ref: Seq<char>,
    base_ref: Seq<char>,
)
    ensures
        switch_refusal(occupant, clean) matches Some(w) ==> w.status() == 400,
        move_out_refusal(lock_free, main_on, live_in_main, base_known, pr, head_ref, base_ref)
            matches Some(w) ==> w.status() == 400,
{
}

} // verus!
