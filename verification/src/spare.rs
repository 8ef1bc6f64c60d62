//! Worktrees cut before anybody asks for one.
//!
//! A spare is an ordinary workspace with no session. A stale one is discarded and cut
//! again; one that somehow acquired work is promoted to an ordinary workspace and left
//! alone.

use vstd::prelude::*;
use vstd::string::*;
use crate::spawn::record::{first_free, free_candidate, Candidate};
use crate::spawn::{worktree_branch, worktree_branch_of};
use crate::text::{as_deref, cat2, copies, listed, opt_text, pair_text, same, same_opt, texts};

verus! {

/// Cut a spare again once it is this old, in nanoseconds, whatever git says about it:
/// twelve hours.
pub const MAX_AGE: u64 = 43_200_000_000_000;

/// How many entries a broken-symlink scan will look at before giving up.
pub const SCAN_BUDGET: usize = 20000;

/// Why a spare cannot be handed to the next session.
#[derive(Debug, Clone, Copy, PartialEq, Eq, Structural)]
pub enum Stale {
    /// The tree is gone from disk.
    Missing,
    /// Uncommitted changes, or commits of its own.
    Touched,
    /// The base moved on.
    Behind,
    /// A symlink no longer resolves.
    Dangling,
    /// The tree is no longer on the branch it was cut with.
    Moved,
    /// Cut too long ago to vouch for.
    Old,
}

impl Stale {
    pub open spec fn may_go(self) -> bool {
        !(self is Touched || self is Moved)
    }

    /// Whether the tree may be removed, or must only be let go of.
    pub fn removable(self) -> (r: bool)
        ensures
            r == self.may_go(),
    {
        !matches!(self, Stale::Touched | Stale::Moved)
    }

    pub open spec fn words(self) -> Seq<char> {
        match self {
            Stale::Missing => "its tree is gone"@,
            Stale::Touched => "it has been worked in"@,
            Stale::Behind => "the base moved on"@,
            Stale::Dangling => "a symlink no longer resolves"@,
            Stale::Moved => "it is no longer on the branch it was cut with"@,
            Stale::Old => "it is older than the pool vouches for"@,
        }
    }

    pub fn why(self) -> (r: &'static str)
        ensures
            r@ == self.words(),
    {
        match self {
            Stale::Missing => "its tree is gone",
            Stale::Touched => "it has been worked in",
            Stale::Behind => "the base moved on",
            Stale::Dangling => "a symlink no longer resolves",
            Stale::Moved => "it is no longer on the branch it was cut with",
            Stale::Old => "it is older than the pool vouches for",
        }
    }
}

/// What a look at a spare's tree measured.
pub struct Measured {
    /// Nothing in the tree is changed or untracked.
    pub clean: bool,
    /// Commits the base has and the tree does not.
    pub behind: u32,
    /// Commits of its own.
    pub ahead: u32,
    pub branch: Option<String>,
    pub dangling: bool,
    /// How long ago it was cut, in nanoseconds, where that can be told.
    pub age: Option<u64>,
}

/// Why a tree is not handable, if it is not. A tree that could not be measured is not
/// taken for a fresh one.
pub open spec fn staleness(standing: bool, m: Option<Measured>, id: Seq<char>) -> Option<Stale> {
    if !standing {
        Some(Stale::Missing)
    } else {
        match m {
            None => Some(Stale::Touched),
            Some(m) => if !m.clean || m.ahead > 0 {
                Some(Stale::Touched)
            } else if opt_text(m.branch) != Some(worktree_branch(id)) {
                Some(Stale::Moved)
            } else if m.behind > 0 {
                Some(Stale::Behind)
            } else if m.dangling {
                Some(Stale::Dangling)
            } else if m.age is Some && m.age->Some_0 > MAX_AGE {
                Some(Stale::Old)
            } else {
                None
            },
        }
    }
}

/// Is this tree still handable? `None` is yes.
pub fn verdict(standing: bool, measured: Option<&Measured>, id: &str) -> (r: Option<Stale>)
    ensures
        r == staleness(
            standing,
            match measured {
                Some(m) => Some(*m),
                None => None,
            },
            id@,
        ),
{
    if !standing {
        return Some(Stale::Missing);
    }
    match measured {
        None => Some(Stale::Touched),
        Some(m) => {
            if !m.clean || m.ahead > 0 {
                return Some(Stale::Touched);
            }
            let want: String = cat2("worktree-", id);
            if !same_opt(as_deref(&m.branch), Some(want.as_str())) {
                return Some(Stale::Moved);
            }
            if m.behind > 0 {
                return Some(Stale::Behind);
            }
            if m.dangling {
                return Some(Stale::Dangling);
            }
            match m.age {
                Some(a) => if a > MAX_AGE {
                    Some(Stale::Old)
                } else {
                    None
                },
                None => None,
            }
        },
    }
}

/// A tree with anything of somebody's in it is never removed: uncommitted work, a commit
/// of its own, or a branch it was not cut with all leave it standing.
pub proof fn work_is_never_removed(m: Option<Measured>, id: Seq<char>)
    requires
        m is None || !m->Some_0.clean || m->Some_0.ahead > 0 || opt_text(m->Some_0.branch)
            != Some(worktree_branch(id)),
    ensures
        staleness(true, m, id) is Some,
        !(staleness(true, m, id)->Some_0).may_go(),
{
}

/// A spare is handed over wherever nothing is wrong with it, up to twelve hours after it was
/// cut, and where its age cannot be told.
pub proof fn a_fresh_tree_is_handed_over(m: Measured, id: Seq<char>)
    requires
        m.clean,
        m.ahead == 0,
        m.behind == 0,
        !m.dangling,
        m.branch is Some,
        m.branch->Some_0@ == worktree_branch(id),
        m.age matches Some(a) ==> a <= 12 * 60 * 60 * 1_000_000_000,
    ensures
        staleness(true, Some(m), id) is None,
{
}

/// Each thing that can be wrong with a spare is why it is not handed over, the first of
/// them where there are several: that it is gone, that somebody worked in it, that it is on
/// another branch, that the base moved on, that a link broke, that it is too old.
pub proof fn a_spare_is_stale_for_a_reason(standing: bool, m: Option<Measured>, id: Seq<char>)
    ensures
        staleness(standing, m, id) == Some(Stale::Missing) <==> !standing,
        staleness(standing, m, id) == Some(Stale::Touched) <==> standing && (m is None
            || !m->Some_0.clean || m->Some_0.ahead > 0),
        staleness(standing, m, id) == Some(Stale::Moved) <==> standing && m is Some
            && m->Some_0.clean && m->Some_0.ahead == 0 && (m->Some_0.branch is None
            || m->Some_0.branch->Some_0@ != worktree_branch(id)),
        staleness(standing, m, id) == Some(Stale::Behind) ==> m->Some_0.behind > 0,
        staleness(standing, m, id) == Some(Stale::Dangling) ==> m->Some_0.dangling
            && m->Some_0.behind == 0,
        staleness(standing, m, id) == Some(Stale::Old) ==> (m->Some_0.age matches Some(a) && a
            > 12 * 60 * 60 * 1_000_000_000),
        standing && m is Some && m->Some_0.behind > 0 ==> staleness(standing, m, id) is Some,
        standing && m is Some && m->Some_0.dangling ==> staleness(standing, m, id) is Some,
        standing && m is Some && (m->Some_0.age matches Some(a) && a > 12 * 60 * 60 * 1_000_000_000)
            ==> staleness(standing, m, id) is Some,
{
}

// ---------------------------------------------------------------------------
// The pool
// ---------------------------------------------------------------------------

/// The list without one entry, wherever it stands.
pub open spec fn without(ids: Seq<Seq<char>>, id: Seq<char>) -> Seq<Seq<char>>
    decreases ids.len(),
{
    if ids.len() == 0 {
        ids
    } else if ids.last() == id {
        without(ids.drop_last(), id)
    } else {
        without(ids.drop_last(), id).push(ids.last())
    }
}

fn retain_others(ids: &Vec<String>, id: &str) -> (r: Vec<String>)
    ensures
        texts(r@) == without(texts(ids@), id@),
{
    let mut out: Vec<String> = Vec::new();
    let mut i: usize = 0;
    proof {
        assert(texts(out@) =~= without(texts(ids@).take(0), id@));
    }
    while i < ids.len()
        invariant
            i <= ids@.len(),
            texts(out@) == without(texts(ids@).take(i as int), id@),
        decreases ids@.len() - i,
    {
        proof {
            assert(texts(ids@).take(i + 1).drop_last() =~= texts(ids@).take(i as int));
            assert(texts(ids@).take(i + 1).last() == ids@[i as int]@);
        }
        if !same(ids[i].as_str(), id) {
            let ghost before = out@;
            out.push(ids[i].clone());
            proof {
                assert(texts(out@) =~= texts(before).push(ids@[i as int]@));
            }
        }
        i += 1;
    }
    proof {
        assert(texts(ids@).take(i as int) =~= texts(ids@));
    }
    out
}

/// The spares, by the name they were cut under.
pub struct Pool {
    pub ids: Vec<String>,
}

impl Pool {
    pub open spec fn names(self) -> Seq<Seq<char>> {
        texts(self.ids@)
    }

    /// Take the first spare out of the pool, or nothing where there is none or the pool
    /// is turned off. It is measured only once nobody else can be handed it.
    pub fn take(&mut self, want: usize) -> (r: Option<String>)
        ensures
            if want == 0 || old(self).names().len() == 0 {
                r is None && final(self).names() == old(self).names()
            } else {
                opt_text(r) == Some(old(self).names()[0]) && final(self).names() == without(
                    old(self).names(),
                    old(self).names()[0],
                )
            },
    {
        if want == 0 || self.ids.len() == 0 {
            return None;
        }
        let id: String = self.ids[0].clone();
        proof {
            assert(self.names()[0] == id@);
        }
        self.ids = retain_others(&self.ids, id.as_str());
        Some(id)
    }

    /// Let go of a spare. Returns whether it was in the pool.
    pub fn drop_spare(&mut self, id: &str) -> (r: bool)
        ensures
            final(self).names() == without(old(self).names(), id@),
            r == (final(self).names().len() != old(self).names().len()),
    {
        let before: usize = self.ids.len();
        self.ids = retain_others(&self.ids, id);
        self.ids.len() != before
    }

    /// Record a spare that has been cut and put through its hooks.
    pub fn record(&mut self, name: &str)
        ensures
            final(self).names() == old(self).names().push(name@),
    {
        let ghost before = self.names();
        self.ids.push(name.to_owned());
        proof {
            assert(self.names() =~= before.push(name@));
        }
    }

    /// Whether another spare has to be cut now: one that failed is not tried again until
    /// the next look.
    pub fn refill(&self, want: usize, last_failed: bool) -> (r: bool)
        ensures
            r == (self.names().len() < want && !last_failed),
    {
        self.ids.len() < want && !last_failed
    }

    /// The spares that the regular look measures, in order. Where the pool is turned off it
    /// lets every spare go instead, as it stands, and there is none to look at.
    pub fn to_look_at(&mut self, want: usize) -> (r: Vec<String>)
        ensures
            want == 0 ==> r@.len() == 0 && final(self).names().len() == 0,
            want > 0 ==> texts(r@) == old(self).names() && final(self).names() == old(
                self,
            ).names(),
    {
        if want == 0 {
            self.ids = Vec::new();
            return Vec::new();
        }
        copies(&self.ids)
    }

    /// The pool as it is after a restart: the stored names that a workspace still goes
    /// by, and how many there are no longer.
    pub fn adopt_at_boot(stored: &Vec<String>, workspaces: &Vec<String>) -> (r: (Pool, usize))
        ensures
            r.0.names() == known_of(texts(stored@), texts(workspaces@)),
            r.1 == stored@.len() - r.0.names().len(),
    {
        let mut kept: Vec<String> = Vec::new();
        let mut i: usize = 0;
        proof {
            assert(texts(kept@) =~= known_of(texts(stored@).take(0), texts(workspaces@)));
        }
        while i < stored.len()
            invariant
                i <= stored@.len(),
                kept@.len() <= i,
                texts(kept@) == known_of(texts(stored@).take(i as int), texts(workspaces@)),
            decreases stored@.len() - i,
        {
            proof {
                let s = texts(stored@);
                assert(s.take(i + 1).drop_last() =~= s.take(i as int));
                assert(s.take(i + 1).last() == stored@[i as int]@);
            }
            if listed(workspaces, stored[i].as_str()) {
                let ghost before = kept@;
                kept.push(stored[i].clone());
                proof {
                    assert(texts(kept@) =~= texts(before).push(stored@[i as int]@));
                }
            }
            i += 1;
        }
        proof {
            assert(texts(stored@).take(i as int) =~= texts(stored@));
        }
        let dropped: usize = stored.len() - kept.len();
        (Pool { ids: kept }, dropped)
    }
}

/// The names of a list that are in another.
pub open spec fn known_of(ids: Seq<Seq<char>>, known: Seq<Seq<char>>) -> Seq<Seq<char>>
    decreases ids.len(),
{
    if ids.len() == 0 {
        ids
    } else if known.contains(ids.last()) {
        known_of(ids.drop_last(), known).push(ids.last())
    } else {
        known_of(ids.drop_last(), known)
    }
}

/// After a restart the pool holds every stored name that a workspace still goes by, in its
/// order, and no other.
pub proof fn a_restart_keeps_the_spares_that_are_there(
    ids: Seq<Seq<char>>,
    known: Seq<Seq<char>>,
    name: Seq<char>,
)
    ensures
        known_of(ids, known).contains(name) <==> ids.contains(name) && known.contains(name),
        known_of(ids, known) == ids.filter(|x: Seq<char>| known.contains(x)),
    decreases ids.len(),
{
    reveal(Seq::filter);
    if ids.len() > 0 {
        let front = ids.drop_last();
        a_restart_keeps_the_spares_that_are_there(front, known, name);
        let all = known_of(ids, known);
        let some = known_of(front, known);
        if some.contains(name) {
            let k = choose|k: int| 0 <= k < some.len() && some[k] == name;
            assert(all[k] == name);
        }
        if front.contains(name) {
            let k = choose|k: int| 0 <= k < front.len() && front[k] == name;
            assert(ids[k] == name);
        }
        if ids.contains(name) {
            let k = choose|k: int| 0 <= k < ids.len() && ids[k] == name;
            if k < front.len() {
                assert(front[k] == name);
            } else if known.contains(name) {
                assert(all[some.len() as int] == name);
            }
        }
        if all.contains(name) && known.contains(ids.last()) {
            let k = choose|k: int| 0 <= k < all.len() && all[k] == name;
            if k < some.len() {
                assert(some[k] == name);
            } else {
                assert(ids[ids.len() - 1] == name);
            }
        }
    }
}

/// The name and the branch of the next spare.
pub open spec fn next_spare(candidates: Seq<Candidate>, held: Seq<Seq<char>>) -> Option<
    (Seq<char>, Seq<char>),
> {
    match first_free(candidates, held) {
        Some(n) => Some((n, worktree_branch(n))),
        None => None,
    }
}

/// A spare is cut wherever a name is free, under that name and on its own branch.
pub proof fn a_spare_is_cut_under_a_free_name(candidates: Seq<Candidate>, held: Seq<Seq<char>>)
    ensures
        next_spare(candidates, held) is Some <==> first_free(candidates, held) is Some,
        first_free(candidates, held) matches Some(n) ==> next_spare(candidates, held) == Some(
            (n, "worktree-"@ + n),
        ),
{
}

/// The name and the branch of the next spare: the first name that neither a workspace
/// nor a directory has.
pub fn cut_one(candidates: &Vec<Candidate>, held: &Vec<String>) -> (r: Option<(String, String)>)
    ensures
        pair_text(r) == next_spare(candidates@, texts(held@)),
{
    match free_candidate(candidates, held) {
        Some(name) => {
            let branch: String = worktree_branch_of(name.as_str());
            Some((name, branch))
        },
        None => None,
    }
}

/// The pool after cutting for as long as it asks for more and there are names to cut.
pub open spec fn filled(ids: Seq<Seq<char>>, cut: Seq<Seq<char>>, want: nat) -> Seq<Seq<char>>
    decreases cut.len(),
{
    if ids.len() < want && cut.len() > 0 {
        filled(ids.push(cut[0]), cut.skip(1), want)
    } else {
        ids
    }
}

/// Cutting for as long as the pool asks for more fills it exactly, and lets go of nothing
/// that was in it: it never comes to hold more than it is meant to.
pub proof fn a_refill_never_overfills(ids: Seq<Seq<char>>, cut: Seq<Seq<char>>, want: nat)
    ensures
        filled(ids, cut, want).len() == if ids.len() >= want {
            ids.len()
        } else if ids.len() + cut.len() >= want {
            want
        } else {
            ids.len() + cut.len()
        },
        ids.is_prefix_of(filled(ids, cut, want)),
    decreases cut.len(),
{
    if ids.len() < want && cut.len() > 0 {
        let more = ids.push(cut[0]);
        let all = filled(more, cut.skip(1), want);
        a_refill_never_overfills(more, cut.skip(1), want);
        assert(ids =~= all.subrange(0, ids.len() as int)) by {
            assert(more =~= all.subrange(0, more.len() as int));
            assert forall|i: int| 0 <= i < ids.len() implies ids[i] == all[i] by {
                assert(more[i] == all.subrange(0, more.len() as int)[i]);
            }
        }
    } else {
        assert(ids =~= ids.subrange(0, ids.len() as int));
    }
}

/// Two claims cannot take the same spare: once taken, a name is in the pool no more,
/// whatever else is.
pub proof fn a_spare_is_taken_once(ids: Seq<Seq<char>>, id: Seq<char>)
    ensures
        !without(ids, id).contains(id),
        forall|x: Seq<char>| #[trigger] ids.contains(x) && x != id ==> without(ids, id).contains(x),
        without(ids, id).len() <= ids.len(),
    decreases ids.len(),
{
    if ids.len() > 0 {
        let front = ids.drop_last();
        a_spare_is_taken_once(front, id);
        let all = without(ids, id);
        let some = without(front, id);
        assert forall|x: Seq<char>| #[trigger] ids.contains(x) && x != id implies all.contains(
            x,
        ) by {
            if x == ids.last() {
                assert(all[all.len() - 1] == x);
            } else {
                let k = choose|k: int| 0 <= k < ids.len() && ids[k] == x;
                assert(front[k] == x);
                assert(front.contains(x));
                let j = choose|j: int| 0 <= j < some.len() && some[j] == x;
                assert(all[j] == x);
            }
        }
        if all.contains(id) {
            let k = choose|k: int| 0 <= k < all.len() && all[k] == id;
            if ids.last() != id {
                assert(k < some.len());
                assert(some[k] == id);
                assert(some.contains(id));
            } else {
                assert(some.contains(id));
            }
        }
    }
}

/// What is done with a spare that is let go of.
#[derive(Debug, Clone, Copy, PartialEq, Eq, Structural)]
pub enum Parting {
    /// It stays as an ordinary workspace.
    Promote,
    /// There is nothing left to remove.
    Nothing,
    /// Its tree is torn down through the ordinary preflight, and its branch after it.
    Teardown,
}

/// What is done with a spare that is let go of for this reason.
pub open spec fn parting(why: Stale) -> Parting {
    if !why.may_go() {
        Parting::Promote
    } else if why == Stale::Missing {
        Parting::Nothing
    } else {
        Parting::Teardown
    }
}

/// Let go of a spare, and say what is done with its tree: it is removed only when that
/// destroys nothing.
pub fn discard(pool: &mut Pool, id: &str, why: Stale) -> (r: Parting)
    ensures
        final(pool).names() == without(old(pool).names(), id@),
        r == parting(why),
{
    let _ = pool.drop_spare(id);
    if !why.removable() {
        Parting::Promote
    } else if why == Stale::Missing {
        Parting::Nothing
    } else {
        Parting::Teardown
    }
}

/// The branch that goes with a spare: its own, and only once its tree was torn down.
pub open spec fn branch_gone(how: Parting, torn_down: bool, id: Seq<char>) -> Option<Seq<char>> {
    if how == Parting::Teardown && torn_down {
        Some(worktree_branch(id))
    } else {
        None
    }
}

/// The branch to delete after a spare was let go of, if one is: `torn_down` is whether its
/// tree was torn down, which the preflight may have refused.
pub fn branch_to_delete(how: Parting, torn_down: bool, id: &str) -> (r: Option<String>)
    ensures
        opt_text(r) == branch_gone(how, torn_down, id@),
{
    if how == Parting::Teardown && torn_down {
        Some(worktree_branch_of(id))
    } else {
        None
    }
}

/// Letting go of a spare takes it out of the pool and every other stays, in its order. Its
/// tree is torn down only where the base moved on, a link broke or it grew old. A spare
/// with work in it keeps its tree and its branch, whatever the preflight would have said,
/// and no branch goes whose tree still stands.
pub proof fn letting_go_destroys_no_work(
    ids: Seq<Seq<char>>,
    id: Seq<char>,
    why: Stale,
    torn_down: bool,
)
    ensures
        !without(ids, id).contains(id),
        without(ids, id) == ids.filter(|x: Seq<char>| x != id),
        parting(why) == Parting::Teardown <==> (why == Stale::Behind || why == Stale::Dangling
            || why == Stale::Old),
        why == Stale::Touched || why == Stale::Moved ==> parting(why) == Parting::Promote
            && branch_gone(parting(why), torn_down, id) is None,
        branch_gone(parting(why), torn_down, id) is Some ==> torn_down && parting(why)
            == Parting::Teardown,
        !torn_down ==> branch_gone(parting(why), torn_down, id) is None,
{
    a_spare_is_taken_once(ids, id);
    lemma_without_filters(ids, id);
}

proof fn lemma_without_filters(ids: Seq<Seq<char>>, id: Seq<char>)
    ensures
        without(ids, id) == ids.filter(|x: Seq<char>| x != id),
    decreases ids.len(),
{
    reveal(Seq::filter);
    if ids.len() > 0 {
        lemma_without_filters(ids.drop_last(), id);
    }
}

/// What a claim comes to: the spare, or what is done with it instead.
#[derive(Debug, Clone, Copy, PartialEq, Eq, Structural)]
pub enum Claim {
    /// Hand it over.
    Take,
    /// Its workspace is gone from the daemon's books.
    Unknown,
    /// It is not handable, and let go of.
    Part(Stale),
}

pub open spec fn claimed(known: bool, stale: Option<Stale>) -> Claim {
    if !known {
        Claim::Unknown
    } else {
        match stale {
            None => Claim::Take,
            Some(why) => Claim::Part(why),
        }
    }
}

/// A spare that is known and fresh is handed over, and nothing else is: one that is stale is
/// let go of for what is wrong with it.
pub proof fn a_known_fresh_spare_is_taken(known: bool, stale: Option<Stale>, why: Stale)
    ensures
        claimed(known, stale) == Claim::Take <==> known && stale is None,
        claimed(known, stale) == Claim::Part(why) <==> known && stale == Some(why),
{
}

/// What a claim of a spare comes to, once it is out of the pool and measured: `known`
/// is whether a workspace goes by its name.
pub fn claim(known: bool, standing: bool, measured: Option<&Measured>, id: &str) -> (r: Claim)
    ensures
        ({
            let stale = staleness(
                standing,
                match measured {
                    Some(m) => Some(*m),
                    None => None,
                },
                id@,
            );
            r == claimed(known, stale)
        }),
{
    if !known {
        return Claim::Unknown;
    }
    match verdict(standing, measured, id) {
        None => Claim::Take,
        Some(why) => Claim::Part(why),
    }
}

/// What is handed over stands, is clean, has no commit of its own, is on its own branch,
/// level with the base, with every link resolving and not too old.
pub proof fn only_a_fresh_tree_is_handed_over(standing: bool, m: Option<Measured>, id: Seq<char>)
    requires
        staleness(standing, m, id) is None,
    ensures
        standing,
        m is Some,
        m->Some_0.clean && m->Some_0.ahead == 0 && m->Some_0.behind == 0 && !m->Some_0.dangling,
        opt_text(m->Some_0.branch) == Some(worktree_branch(id)),
        m->Some_0.age matches Some(a) ==> a <= MAX_AGE,
{
}

/// What a look at every spare does with one of them.
#[derive(Debug, Clone, Copy, PartialEq, Eq, Structural)]
pub enum Upkeep {
    /// Current by every measure: run the repository's own setup again.
    Relink,
    /// It is let go of.
    Part(Stale),
}

pub open spec fn kept_up(known: bool, stale: Option<Stale>) -> Upkeep {
    if !known {
        Upkeep::Part(Stale::Missing)
    } else {
        match stale {
            None => Upkeep::Relink,
            Some(why) => Upkeep::Part(why),
        }
    }
}

/// A look at the pool keeps just what a claim would take, and lets everything else go for
/// what is wrong with it: one that no workspace goes by is gone.
pub proof fn a_look_keeps_what_a_claim_would_take(known: bool, stale: Option<Stale>, why: Stale)
    ensures
        kept_up(known, stale) == Upkeep::Relink <==> claimed(known, stale) == Claim::Take,
        claimed(known, stale) == Claim::Part(why) ==> kept_up(known, stale) == Upkeep::Part(why),
        claimed(known, stale) == Claim::Unknown ==> kept_up(known, stale) == Upkeep::Part(
            Stale::Missing,
        ),
{
}

/// What the regular look at the pool does with a spare: one with no workspace is gone,
/// a stale one is let go of, and a current one is linked again.
pub fn refresh(known: bool, standing: bool, measured: Option<&Measured>, id: &str) -> (r: Upkeep)
    ensures
        ({
            let stale = staleness(
                standing,
                match measured {
                    Some(m) => Some(*m),
                    None => None,
                },
                id@,
            );
            r == kept_up(known, stale)
        }),
{
    let stale: Option<Stale> = if !known {
        Some(Stale::Missing)
    } else {
        verdict(standing, measured, id)
    };
    match stale {
        None => Upkeep::Relink,
        Some(why) => Upkeep::Part(why),
    }
}

// ---------------------------------------------------------------------------
// Looking for broken links
// ---------------------------------------------------------------------------

/// What an entry of a directory is, without following it.
#[derive(Debug, Clone, Copy, PartialEq, Eq, Structural)]
pub enum Kind {
    /// A symlink, and whether what it points at is there.
    Link { resolves: bool },
    Directory,
    Other,
    /// It could not be looked at.
    Unreadable,
}

pub struct Entry {
    pub path: String,
    pub kind: Kind,
}

/// What one directory's entries say.
#[derive(Debug, Clone, Copy, PartialEq, Eq, Structural)]
pub enum Found {
    /// A link does not resolve.
    Broken,
    /// The budget ran out, which counts as nothing found.
    Exhausted,
    /// Nothing yet.
    Clear,
}

/// What the first `n` entries of a directory say, with `seen` entries before them.
pub open spec fn found_in(entries: Seq<Entry>, seen: int) -> Found
    decreases entries.len(),
{
    if entries.len() == 0 {
        Found::Clear
    } else {
        let front = found_in(entries.drop_last(), seen);
        if front != Found::Clear {
            front
        } else if seen + entries.len() > SCAN_BUDGET {
            Found::Exhausted
        } else if entries.last().kind == (Kind::Link { resolves: false }) {
            Found::Broken
        } else {
            Found::Clear
        }
    }
}

/// The directories among entries, in order.
pub open spec fn folders_in(entries: Seq<Entry>) -> Seq<Seq<char>>
    decreases entries.len(),
{
    if entries.len() == 0 {
        Seq::empty()
    } else if entries.last().kind == Kind::Directory {
        folders_in(entries.drop_last()).push(entries.last().path@)
    } else {
        folders_in(entries.drop_last())
    }
}

/// A scan for a symlink that does not resolve. It enters only real directories, so a
/// link is never walked through, and it gives up rather than take long.
pub struct Scan {
    /// The directories still to look into, the next one last.
    pub stack: Vec<String>,
    pub seen: usize,
}

impl Scan {
    pub fn new(root: &str) -> (r: Self)
        ensures
            texts(r.stack@) == seq![root@],
            r.seen == 0,
    {
        let mut stack: Vec<String> = Vec::new();
        stack.push(root.to_owned());
        proof {
            assert(texts(stack@) =~= seq![root@]);
        }
        Scan { stack, seen: 0 }
    }

    /// The next directory to look into. There is none once the whole tree was seen, and
    /// then nothing is broken.
    pub fn next(&mut self) -> (r: Option<String>)
        ensures
            final(self).seen == old(self).seen,
            if old(self).stack@.len() == 0 {
                r is None && final(self).stack@ == old(self).stack@
            } else {
                r == Some(old(self).stack@.last()) && final(self).stack@
                    == old(self).stack@.drop_last()
            },
    {
        self.stack.pop()
    }

    /// Take in the entries of the directory that was looked into.
    pub fn look(&mut self, entries: &Vec<Entry>) -> (r: Found)
        requires
            old(self).seen <= SCAN_BUDGET,
        ensures
            r == found_in(entries@, old(self).seen as int),
            r == Found::Clear ==> final(self).seen == old(self).seen + entries@.len(),
            r == Found::Clear ==> final(self).seen <= SCAN_BUDGET,
            r == Found::Clear ==> texts(final(self).stack@) == texts(old(self).stack@)
                + folders_in(entries@),
    {
        let mut i: usize = 0;
        let ghost first = old(self).seen as int;
        proof {
            assert(texts(self.stack@) =~= texts(old(self).stack@) + folders_in(entries@.take(0)));
        }
        while i < entries.len()
            invariant
                i <= entries@.len(),
                first == old(self).seen,
                self.seen == first + i,
                self.seen <= SCAN_BUDGET,
                found_in(entries@.take(i as int), first) == Found::Clear,
                texts(self.stack@) == texts(old(self).stack@) + folders_in(
                    entries@.take(i as int),
                ),
            decreases entries@.len() - i,
        {
            proof {
                assert(entries@.take(i + 1).drop_last() =~= entries@.take(i as int));
                assert(entries@.take(i + 1).last() == entries@[i as int]);
            }
            self.seen = self.seen + 1;
            if self.seen > SCAN_BUDGET {
                proof {
                    lemma_found_stays(entries@, first, i + 1);
                }
                return Found::Exhausted;
            }
            match entries[i].kind {
                Kind::Link { resolves } => {
                    if !resolves {
                        proof {
                            lemma_found_stays(entries@, first, i + 1);
                        }
                        return Found::Broken;
                    }
                },
                Kind::Directory => {
                    let ghost before = self.stack@;
                    self.stack.push(entries[i].path.clone());
                    proof {
                        assert(texts(self.stack@) =~= texts(before).push(
                            entries@[i as int].path@,
                        ));
                        let base = texts(old(self).stack@);
                        let f = folders_in(entries@.take(i as int));
                        assert((base + f).push(entries@[i as int].path@) =~= base + f.push(
                            entries@[i as int].path@,
                        ));
                    }
                },
                _ => {},
            }
            i += 1;
        }
        proof {
            assert(entries@.take(i as int) =~= entries@);
        }
        Found::Clear
    }
}

/// A scan walks into real directories alone: a link is never followed, whatever it points
/// at.
pub proof fn a_scan_never_follows_a_link(entries: Seq<Entry>, k: int)
    requires
        0 <= k < folders_in(entries).len(),
    ensures
        exists|i: int|
            0 <= i < entries.len() && (#[trigger] entries[i]).path@ == folders_in(entries)[k]
                && entries[i].kind == Kind::Directory,
    decreases entries.len(),
{
    let front = entries.drop_last();
    if k < folders_in(front).len() {
        a_scan_never_follows_a_link(front, k);
        let i = choose|i: int|
            0 <= i < front.len() && (#[trigger] front[i]).path@ == folders_in(front)[k]
                && front[i].kind == Kind::Directory;
        assert(entries[i] == front[i]);
    } else {
        assert(entries[entries.len() - 1].kind == Kind::Directory);
    }
}

proof fn lemma_found_stays(entries: Seq<Entry>, seen: int, n: int)
    requires
        0 <= n <= entries.len(),
        found_in(entries.take(n), seen) != Found::Clear,
    ensures
        found_in(entries, seen) == found_in(entries.take(n), seen),
    decreases entries.len() - n,
{
    if n == entries.len() {
        assert(entries.take(n) =~= entries);
    } else {
        assert(entries.take(n + 1).drop_last() =~= entries.take(n));
        lemma_found_stays(entries, seen, n + 1);
    }
}

/// A broken link is found wherever it stands among what the budget covers, nothing is called
/// broken that has none, and a scan gives up only past twenty thousand entries.
pub proof fn a_broken_link_is_found(entries: Seq<Entry>, seen: int, k: int)
    requires
        0 <= seen,
    ensures
        0 <= k < entries.len() && seen + k + 1 <= 20_000 && (entries[k].kind matches Kind::Link {
            resolves,
        } && !resolves) ==> found_in(entries, seen) == Found::Broken,
        found_in(entries, seen) == Found::Broken ==> exists|i: int|
            0 <= i < entries.len() && ((#[trigger] entries[i]).kind matches Kind::Link { resolves }
                && !resolves),
        found_in(entries, seen) == Found::Exhausted ==> seen + entries.len() > 20_000,
        seen + entries.len() > 20_000 && entries.len() > 0 ==> found_in(entries, seen)
            != Found::Clear,
    decreases entries.len(),
{
    if entries.len() > 0 {
        let front = entries.drop_last();
        a_broken_link_is_found(front, seen, k);
        if 0 <= k < front.len() {
            assert(front[k] == entries[k]);
        }
        if found_in(front, seen) == Found::Broken {
            let i = choose|i: int|
                0 <= i < front.len() && ((#[trigger] front[i]).kind matches Kind::Link { resolves }
                    && !resolves);
            assert(entries[i] == front[i]);
        }
        assert(entries[entries.len() - 1] == entries.last());
    }
}

/// A scan looks into every real directory it comes by.
pub proof fn a_scan_enters_every_folder(entries: Seq<Entry>, k: int)
    requires
        0 <= k < entries.len(),
        entries[k].kind is Directory,
    ensures
        folders_in(entries).contains(entries[k].path@),
    decreases entries.len(),
{
    let front = entries.drop_last();
    let all = folders_in(entries);
    let some = folders_in(front);
    if k < front.len() {
        a_scan_enters_every_folder(front, k);
        let j = choose|j: int| 0 <= j < some.len() && some[j] == entries[k].path@;
        assert(all[j] == some[j]);
    } else {
        assert(all[some.len() as int] == entries[k].path@);
    }
}

/// Each reason to let a spare go is told in its own words.
pub proof fn a_stale_spare_is_told_of_truly()
    ensures
        Stale::Missing.words() == "its tree is gone"@,
        Stale::Touched.words() == "it has been worked in"@,
        Stale::Behind.words() == "the base moved on"@,
        Stale::Dangling.words() == "a symlink no longer resolves"@,
        Stale::Moved.words() == "it is no longer on the branch it was cut with"@,
        Stale::Old.words() == "it is older than the pool vouches for"@,
{
}

} // verus!
