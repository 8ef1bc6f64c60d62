//! Starting sessions: names, commands, the record a session starts with, and what is
//! owed when it ends.

pub mod checkout;
pub mod exit;
pub mod moving;
pub mod output;
pub mod record;
pub mod runs;
pub mod start;

use vstd::prelude::*;
use vstd::string::*;
use crate::api::{refuse, ApiError, Said};
use crate::model::SessionId;
use crate::paths::{begins, components, split};
use crate::text::{
    byte_len, bytes, cat2, cat3, chars_of, is_digit, is_letter, letter, numeral, opt_str, opt_text,
    texts,
};

pub use output::agent_complaint;
pub use runs::RunSpec;

verus! {

/// Placeholder workspace for a worktree whose name is not known yet.
pub const PENDING_WORKTREE: &'static str = "\u{2026}creating";

/// How a spawn relates to a conversation that already exists.
#[derive(Debug, Clone, Copy, PartialEq, Eq, Structural)]
pub enum Source {
    /// Carry on under the same id.
    Resume(SessionId),
    /// Branch off it: same context, new id.
    Fork(SessionId),
}

/// Where a relocated conversation ended up.
#[derive(Debug, Clone, Copy, PartialEq, Eq, Structural)]
pub struct Relocated {
    pub id: SessionId,
    /// True when the resume would not stay up and this is a fork instead.
    pub degraded: bool,
}

// ---------------------------------------------------------------------------
// Names
// ---------------------------------------------------------------------------

pub open spec fn is_name_char(c: char) -> bool {
    is_letter(c) || is_digit(c) || c == '-' || c == '_' || c == '.'
}

/// Why a worktree cannot go by a name, if it cannot.
pub open spec fn name_refusal(name: Seq<char>) -> Option<Said> {
    if name.len() == 0 {
        Some(Said::Failed("worktree name is empty"@))
    } else if byte_len(name) > 64 {
        Some(Said::Failed("worktree name is too long"@))
    } else if exists|i: int| 0 <= i < name.len() && !is_name_char(#[trigger] name[i]) {
        Some(Said::Failed("worktree name may only contain letters, digits, '-', '_' and '.'"@))
    } else if name[0] == '.' || (exists|i: int|
        0 <= i < name.len() - 1 && #[trigger] name[i] == '.' && name[i + 1] == '.') {
        Some(Said::Failed("worktree name may not start with '.' or contain '..'"@))
    } else {
        None
    }
}

/// Worktree names become directory names and branch names, so anything that would
/// escape the worktrees dir is refused outright.
pub fn validate_worktree_name(name: &str) -> (r: Result<(), ApiError>)
    ensures
        match name_refusal(name@) {
            None => r is Ok,
            Some(why) => r is Err && r->Err_0@ == why,
        },
{
    let chars: Vec<char> = chars_of(name);
    if chars.len() == 0 {
        return Err(refuse("worktree name is empty".to_owned()));
    }
    if bytes(name) > 64 {
        return Err(refuse("worktree name is too long".to_owned()));
    }
    let mut i: usize = 0;
    while i < chars.len()
        invariant
            chars@ == name@,
            i <= chars@.len(),
            chars@.len() > 0,
            byte_len(name@) <= 64,
            forall|k: int| 0 <= k < i ==> is_name_char(#[trigger] name@[k]),
        decreases chars@.len() - i,
    {
        let c: char = chars[i];
        if !(letter(c) || numeral(c) || c == '-' || c == '_' || c == '.') {
            proof {
                assert(!is_name_char(name@[i as int]));
            }
            return Err(
                refuse(
                    "worktree name may only contain letters, digits, '-', '_' and '.'".to_owned(),
                ),
            );
        }
        i += 1;
    }
    let mut bad: bool = chars[0] == '.';
    let mut j: usize = 1;
    while j < chars.len()
        invariant
            chars@ == name@,
            1 <= j <= chars@.len(),
            bad == (name@[0] == '.' || exists|k: int|
                0 <= k < j - 1 && #[trigger] name@[k] == '.' && name@[k + 1] == '.'),
        decreases chars@.len() - j,
    {
        let ghost was = bad;
        if chars[j - 1] == '.' && chars[j] == '.' {
            bad = true;
            proof {
                assert(name@[j - 1] == '.' && name@[j - 1 + 1] == '.');
            }
        } else {
            proof {
                if exists|k: int| 0 <= k < j && #[trigger] name@[k] == '.' && name@[k + 1] == '.' {
                    let k = choose|k: int|
                        0 <= k < j && #[trigger] name@[k] == '.' && name@[k + 1] == '.';
                    assert(k < j - 1);
                }
            }
        }
        j += 1;
    }
    if bad {
        return Err(refuse("worktree name may not start with '.' or contain '..'".to_owned()));
    }
    Ok(())
}

/// A name that is taken stays inside the worktrees dir: it holds no slash, is neither
/// `.` nor `..`, and is one path component by itself.
pub proof fn a_valid_name_stays_inside(name: Seq<char>)
    requires
        name_refusal(name) is None,
    ensures
        !name.contains('/'),
        components(name) == seq![name],
{
    assert forall|i: int| 0 <= i < name.len() implies name[i] != '/' by {
        assert(is_name_char(name[i]));
    }
    lemma_one_piece(name);
    assert(name != seq!['.']);
    let ps = crate::paths::pieces(name);
    assert(ps.drop_last() =~= Seq::<Seq<char>>::empty());
    assert(crate::paths::named(ps) =~= seq![name]) by {
        assert(crate::paths::named(ps.drop_last()) =~= Seq::<Seq<char>>::empty());
    }
    assert(components(name) =~= seq![name]);
}

proof fn lemma_one_piece(s: Seq<char>)
    requires
        forall|i: int| 0 <= i < s.len() ==> s[i] != '/',
    ensures
        crate::paths::pieces(s) == seq![s],
    decreases s.len(),
{
    if s.len() > 0 {
        lemma_one_piece(s.drop_last());
        assert(s.drop_last().push(s.last()) =~= s);
        assert(crate::paths::pieces(s) =~= seq![s]);
    } else {
        assert(s =~= Seq::<char>::empty());
    }
}

/// The worktree that a path lies in: the component right under the worktrees dir.
pub open spec fn worktree_of(path: Seq<char>, dir: Seq<char>) -> Option<Seq<char>> {
    let (p, d) = (components(path), components(dir));
    if d.is_prefix_of(p) && d.len() < p.len() {
        Some(p[d.len() as int])
    } else {
        None
    }
}

/// The worktree a session actually landed in.
pub fn worktree_name_of(path: &str, worktrees_dir: &str) -> (r: Option<String>)
    ensures
        opt_text(r) == worktree_of(path@, worktrees_dir@),
{
    let p: Vec<String> = split(path);
    let d: Vec<String> = split(worktrees_dir);
    if begins(&p, &d) && d.len() < p.len() {
        proof {
            assert(texts(p@)[d@.len() as int] == p@[d@.len() as int]@);
        }
        Some(p[d.len()].clone())
    } else {
        None
    }
}

/// The branch a worktree is cut on.
pub open spec fn worktree_branch(name: Seq<char>) -> Seq<char> {
    "worktree-"@ + name
}

pub fn worktree_branch_of(name: &str) -> (r: String)
    ensures
        r@ == worktree_branch(name@),
{
    cat2("worktree-", name)
}

/// The ref a per-PR run rebases onto: the PR's own base on the upstream remote, or the
/// configured one where no base is known.
pub open spec fn rebase_base(
    upstream_ref: Seq<char>,
    upstream_remote: Seq<char>,
    base_ref: Option<Seq<char>>,
) -> Seq<char> {
    match base_ref {
        Some(b) => if b.len() == 0 {
            upstream_ref
        } else {
            upstream_remote + "/"@ + b
        },
        None => upstream_ref,
    }
}

pub fn rebase_target(upstream_ref: &str, upstream_remote: &str, base_ref: Option<&str>) -> (r:
    String)
    ensures
        r@ == rebase_base(upstream_ref@, upstream_remote@, opt_str(base_ref)),
{
    match base_ref {
        Some(b) => if b.is_empty() {
            upstream_ref.to_owned()
        } else {
            cat3(upstream_remote, "/", b)
        },
        None => upstream_ref.to_owned(),
    }
}

/// Every plain name is taken: up to sixty-four letters, digits, dashes and underscores, and
/// dots as long as none comes first and no two follow each other.
pub proof fn a_plain_name_is_taken(name: Seq<char>)
    requires
        0 < name.len() <= 64,
        forall|i: int|
            0 <= i < name.len() ==> 'a' <= #[trigger] name[i] <= 'z' || 'A' <= name[i] <= 'Z' || '0'
                <= name[i] <= '9' || name[i] == '-' || name[i] == '_' || name[i] == '.',
        name[0] != '.',
        forall|i: int| 0 < i < name.len() && #[trigger] name[i] == '.' ==> name[i - 1] != '.',
    ensures
        name_refusal(name) is None,
{
    assert(vstd::utf8::is_ascii_chars(name));
    vstd::utf8::is_ascii_chars_encode_utf8(name);
    assert(byte_len(name) <= 64);
    assert forall|i: int| 0 <= i < name.len() - 1 implies !(#[trigger] name[i] == '.' && name[i + 1]
        == '.') by {
        let j = i + 1;
        assert(name[j] == '.' ==> name[j - 1] != '.');
    }
}

/// No name is taken that is empty, starts with a dot, has two dots in a row, or holds
/// anything but letters, digits, dashes, underscores and dots.
pub proof fn a_name_that_escapes_is_refused(name: Seq<char>, i: int)
    requires
        name.len() == 0 || name[0] == '.' || (0 <= i < name.len() - 1 && name[i] == '.' && name[i
            + 1] == '.') || (0 <= i < name.len() && !('a' <= name[i] <= 'z' || 'A' <= name[i] <= 'Z'
            || '0' <= name[i] <= '9' || name[i] == '-' || name[i] == '_' || name[i] == '.')),
    ensures
        name_refusal(name) is Some,
{
    if 0 <= i < name.len() {
        let c = name[i];
    }
}

/// A path lies in the worktree whose folder it is or lies under, and nothing outside of the
/// worktrees, nor the folder of them all, lies in any.
pub proof fn a_path_lies_in_its_worktree(path: Seq<char>, dir: Seq<char>, name: Seq<char>)
    ensures
        components(dir).push(name).is_prefix_of(components(path)) ==> worktree_of(path, dir)
            == Some(name),
        worktree_of(path, dir) == Some(name) ==> components(dir).push(name).is_prefix_of(
            components(path),
        ),
        components(path) == components(dir) ==> worktree_of(path, dir) is None,
{
    let (p, d) = (components(path), components(dir));
    let e = d.push(name);
    if e.is_prefix_of(p) {
        assert(p.subrange(0, e.len() as int) =~= e);
        assert(p[d.len() as int] == e[d.len() as int]);
        assert(p.subrange(0, d.len() as int) =~= d) by {
            assert forall|k: int| 0 <= k < d.len() implies p[k] == d[k] by {
                assert(p.subrange(0, e.len() as int)[k] == e[k]);
            }
        }
    }
    if worktree_of(path, dir) == Some(name) {
        assert(p.subrange(0, e.len() as int) =~= e) by {
            assert(p.subrange(0, d.len() as int) =~= d);
            assert forall|k: int| 0 <= k < e.len() implies p[k] == e[k] by {
                if k < d.len() {
                    assert(p.subrange(0, d.len() as int)[k] == d[k]);
                }
            }
        }
    }
}

/// Two worktrees are never cut on one branch, and none on a branch of another name.
pub proof fn every_worktree_has_a_branch_of_its_own(one: Seq<char>, other: Seq<char>)
    ensures
        worktree_branch(one) == worktree_branch(other) ==> one == other,
        one.is_suffix_of(worktree_branch(one)),
        "worktree-"@.is_prefix_of(worktree_branch(one)),
{
    let n = "worktree-"@.len() as int;
    let (a, b) = (worktree_branch(one), worktree_branch(other));
    assert(a.skip(n) =~= one);
    assert(b.skip(n) =~= other);
    assert(a.subrange(n, a.len() as int) =~= one);
    assert(a.subrange(0, n) =~= "worktree-"@);
}

/// A run rebases onto its own PR's base, on the upstream remote, wherever one is known,
/// and onto the configured base where none is.
pub proof fn a_run_rebases_onto_its_own_base(
    upstream_ref: Seq<char>,
    upstream_remote: Seq<char>,
    base: Seq<char>,
)
    ensures
        base.len() > 0 ==> base.is_suffix_of(
            rebase_base(upstream_ref, upstream_remote, Some(base)),
        ) && upstream_remote.is_prefix_of(rebase_base(upstream_ref, upstream_remote, Some(base)))
            && rebase_base(upstream_ref, upstream_remote, Some(base)).len()
            == upstream_remote.len() + 1 + base.len() && rebase_base(
            upstream_ref,
            upstream_remote,
            Some(base),
        )[upstream_remote.len() as int] == '/',
        rebase_base(upstream_ref, upstream_remote, None) == upstream_ref,
        rebase_base(upstream_ref, upstream_remote, Some(Seq::empty())) == upstream_ref,
{
    reveal_strlit("/");
    let r = rebase_base(upstream_ref, upstream_remote, Some(base));
    if base.len() > 0 {
        assert(r.subrange(0, upstream_remote.len() as int) =~= upstream_remote);
        assert(r.subrange(r.len() - base.len(), r.len() as int) =~= base);
    }
}

/// A name that is refused is refused for good.
pub proof fn a_name_is_refused_for_good(name: Seq<char>)
    ensures
        name_refusal(name) matches Some(w) ==> w.status() == 400,
{
}

} // verus!
