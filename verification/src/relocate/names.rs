//! A worktree's name from the branch it is for.

use vstd::prelude::*;
use vstd::string::*;
use vstd::utf8::{encode_utf8, is_ascii_chars, is_ascii_chars_encode_utf8};
use crate::spawn::{is_name_char, name_refusal};
use crate::text::{
    byte_len, cat3, chars_of, decimal, is_digit, is_letter, letter, listed, number, numeral,
    text_of, texts,
};

verus! {

/// What stands behind the last slash of a branch name.
pub open spec fn leaf(s: Seq<char>) -> Seq<char>
    decreases s.len(),
{
    if s.len() == 0 || s.last() == '/' {
        Seq::empty()
    } else {
        leaf(s.drop_last()).push(s.last())
    }
}

/// A character that a directory can be named with, a dash for any other.
pub open spec fn safe(c: char) -> char {
    if is_letter(c) || is_digit(c) || c == '-' || c == '_' {
        c
    } else {
        '-'
    }
}

pub open spec fn safe_text(s: Seq<char>) -> Seq<char> {
    s.map_values(|c: char| safe(c))
}

pub open spec fn without_leading_dashes(s: Seq<char>) -> Seq<char>
    decreases s.len(),
{
    if s.len() > 0 && s[0] == '-' {
        without_leading_dashes(s.skip(1))
    } else {
        s
    }
}

pub open spec fn without_trailing_dashes(s: Seq<char>) -> Seq<char>
    decreases s.len(),
{
    if s.len() > 0 && s.last() == '-' {
        without_trailing_dashes(s.drop_last())
    } else {
        s
    }
}

/// A directory-safe stem from a branch name: its last part, with a dash for what a
/// directory cannot hold, no dash at either end, and at most forty-eight characters.
pub open spec fn stem(branch: Seq<char>) -> Seq<char> {
    let bare = without_trailing_dashes(without_leading_dashes(safe_text(leaf(branch))));
    let whole = if bare.len() == 0 {
        "work"@
    } else {
        bare
    };
    if whole.len() > 48 {
        whole.take(48)
    } else {
        whole
    }
}

pub fn branch_leaf(branch: &str) -> (r: String)
    ensures
        r@ == stem(branch@),
{
    let chars: Vec<char> = chars_of(branch);
    let n: usize = chars.len();
    let mut at: usize = n;
    proof {
        assert(chars@.take(n as int) =~= chars@);
        assert(leaf(chars@) =~= leaf(chars@.take(at as int)) + chars@.skip(at as int));
    }
    while at > 0 && chars[at - 1] != '/'
        invariant
            n == chars@.len(),
            at <= n,
            leaf(chars@) == leaf(chars@.take(at as int)) + chars@.skip(at as int),
        decreases at,
    {
        proof {
            let front = chars@.take(at as int);
            assert(front.drop_last() =~= chars@.take(at - 1));
            assert(leaf(chars@.take(at - 1)).push(chars@[at - 1]) + chars@.skip(at as int)
                =~= leaf(chars@.take(at - 1)) + chars@.skip(at - 1));
        }
        at -= 1;
    }
    proof {
        assert(leaf(chars@) =~= chars@.skip(at as int));
    }
    let mut clean: Vec<char> = Vec::new();
    let mut i: usize = at;
    while i < n
        invariant
            n == chars@.len(),
            at <= i <= n,
            clean@.len() == i - at,
            forall|k: int| 0 <= k < clean@.len() ==> clean@[k] == safe(chars@[at + k]),
        decreases n - i,
    {
        let c: char = chars[i];
        if letter(c) || numeral(c) || c == '-' || c == '_' {
            clean.push(c);
        } else {
            clean.push('-');
        }
        i += 1;
    }
    let ghost all = safe_text(leaf(branch@));
    proof {
        assert(clean@ =~= all);
    }
    let m: usize = clean.len();
    let mut from: usize = 0;
    proof {
        assert(clean@.skip(0) =~= clean@);
    }
    while from < m && clean[from] == '-'
        invariant
            m == clean@.len(),
            clean@ == all,
            from <= m,
            without_leading_dashes(all) == without_leading_dashes(all.skip(from as int)),
        decreases m - from,
    {
        proof {
            assert(all.skip(from as int).skip(1) =~= all.skip(from + 1));
        }
        from += 1;
    }
    let ghost mid = all.skip(from as int);
    let mut to: usize = m;
    proof {
        assert(mid =~= all.subrange(from as int, m as int));
    }
    while to > from && clean[to - 1] == '-'
        invariant
            m == clean@.len(),
            clean@ == all,
            from <= to <= m,
            without_trailing_dashes(mid) == without_trailing_dashes(
                all.subrange(from as int, to as int),
            ),
        decreases to,
    {
        proof {
            assert(all.subrange(from as int, to as int).drop_last() =~= all.subrange(
                from as int,
                to - 1,
            ));
        }
        to -= 1;
    }
    if from == to {
        proof {
            reveal_strlit("work");
        }
        return "work".to_owned();
    }
    let end: usize = if to - from > 48 {
        from + 48
    } else {
        to
    };
    proof {
        assert(all.subrange(from as int, end as int) =~= stem(branch@));
    }
    text_of(&clean, from, end)
}

/// A branch's own last part names its tree: where it is made of letters, digits and
/// underscores, or dashes that stand at neither end, and is not too long, the stem is just
/// that, whatever stands before the last slash.
pub proof fn a_plain_branch_names_its_tree(front: Seq<char>, last: Seq<char>)
    requires
        0 < last.len() <= 48,
        forall|i: int|
            0 <= i < last.len() ==> 'a' <= #[trigger] last[i] <= 'z' || 'A' <= last[i] <= 'Z' || '0'
                <= last[i] <= '9' || last[i] == '_' || last[i] == '-',
        last[0] != '-',
        last.last() != '-',
    ensures
        stem(last) == last,
        stem(front.push('/') + last) == last,
{
    lemma_leaf(Seq::empty(), last);
    assert(Seq::<char>::empty() + last =~= last);
    lemma_leaf(front.push('/'), last);
    assert(safe_text(last) =~= last);
}

proof fn lemma_leaf(front: Seq<char>, last: Seq<char>)
    requires
        front.len() == 0 || front.last() == '/',
        forall|i: int| 0 <= i < last.len() ==> #[trigger] last[i] != '/',
    ensures
        leaf(front + last) == last,
    decreases last.len(),
{
    let all = front + last;
    if last.len() == 0 {
        assert(all =~= front);
        assert(leaf(front) =~= last);
    } else {
        let short = last.drop_last();
        assert(all.drop_last() =~= front + short);
        assert(all.last() == last.last());
        lemma_leaf(front, short);
        assert(short.push(last.last()) =~= last);
    }
}

/// Whatever a branch is called, its stem has no dash at its start, and where it was not cut
/// short none at its end; a branch with nothing to name a tree by gives `work`.
pub proof fn a_stem_has_no_loose_dashes(branch: Seq<char>)
    ensures
        stem(branch).len() > 0,
        stem(branch)[0] != '-',
        stem(branch).len() < 48 ==> stem(branch).last() != '-',
        (forall|i: int| 0 <= i < branch.len() ==> #[trigger] branch[i] == '/' || branch[i] == '-')
            ==> stem(branch) == "work"@,
{
    reveal_strlit("work");
    lemma_stem(branch);
    let all = safe_text(leaf(branch));
    lemma_no_dash(all);
    let a = without_leading_dashes(all);
    lemma_no_dash_behind(a);
    assert("work"@[0] == 'w' && "work"@.last() == 'k');
    if forall|i: int| 0 <= i < branch.len() ==> #[trigger] branch[i] == '/' || branch[i] == '-' {
        lemma_dashes(branch);
        lemma_all_dashes(all);
    }
}

proof fn lemma_dashes(s: Seq<char>)
    requires
        forall|i: int| 0 <= i < s.len() ==> #[trigger] s[i] == '/' || s[i] == '-',
    ensures
        forall|i: int| 0 <= i < leaf(s).len() ==> #[trigger] leaf(s)[i] == '-',
    decreases s.len(),
{
    if s.len() > 0 && s.last() != '/' {
        let front = s.drop_last();
        assert forall|i: int| 0 <= i < front.len() implies #[trigger] front[i] == '/' || front[i]
            == '-' by {
            assert(s[i] == front[i]);
        }
        lemma_dashes(front);
        assert(s[s.len() - 1] == '-');
        assert(leaf(s) == leaf(front).push('-'));
    }
}

proof fn lemma_all_dashes(s: Seq<char>)
    requires
        forall|i: int| 0 <= i < s.len() ==> #[trigger] s[i] == '-',
    ensures
        without_leading_dashes(s).len() == 0,
    decreases s.len(),
{
    if s.len() > 0 {
        lemma_all_dashes(s.skip(1));
    }
}

proof fn lemma_no_dash(s: Seq<char>)
    ensures
        without_leading_dashes(s).len() > 0 ==> without_leading_dashes(s)[0] != '-',
    decreases s.len(),
{
    if s.len() > 0 && s[0] == '-' {
        lemma_no_dash(s.skip(1));
    }
}

proof fn lemma_no_dash_behind(s: Seq<char>)
    ensures
        without_trailing_dashes(s).len() > 0 ==> without_trailing_dashes(s).last() != '-'
            && without_trailing_dashes(s)[0] == s[0] && without_trailing_dashes(s).len() <= s.len(),
    decreases s.len(),
{
    if s.len() > 0 && s.last() == '-' {
        lemma_no_dash_behind(s.drop_last());
    }
}

/// The `n`th name tried for a stem: the stem itself, then the stem with a number.
pub open spec fn nth_name(stem: Seq<char>, n: nat) -> Seq<char> {
    if n <= 1 {
        stem
    } else {
        stem + "-"@ + decimal(n)
    }
}

/// The first name from the `n`th on that nothing has, or the stem where all of the
/// first ninety-nine are taken.
pub open spec fn free_from(stem: Seq<char>, taken: Seq<Seq<char>>, n: nat) -> Seq<char>
    decreases 100 - n,
{
    if n >= 100 {
        stem
    } else if taken.contains(nth_name(stem, n)) {
        free_from(stem, taken, n + 1)
    } else {
        nth_name(stem, n)
    }
}

/// `stem`, or the first `stem-N` with no directory of that name. `on_disk` lists the
/// directories that there are.
pub fn free_worktree_name(stem: &str, on_disk: &Vec<String>) -> (r: String)
    ensures
        r@ == free_from(stem@, texts(on_disk@), 1),
{
    let mut n: u64 = 1;
    while n < 100
        invariant
            1 <= n <= 100,
            free_from(stem@, texts(on_disk@), 1) == free_from(
                stem@,
                texts(on_disk@),
                n as nat,
            ),
        decreases 100 - n,
    {
        let name: String = if n == 1 {
            stem.to_owned()
        } else {
            let digits: String = number(n);
            cat3(stem, "-", digits.as_str())
        };
        if !listed(on_disk, name.as_str()) {
            return name;
        }
        n += 1;
    }
    stem.to_owned()
}

/// The stem for the tree that takes a branch out of main.
pub open spec fn leaving_stem(branch: Seq<char>, base: Option<Seq<char>>) -> Seq<char> {
    if base == Some(branch) {
        "work"@
    } else {
        stem(branch)
    }
}

/// Work that leaves main takes its branch's name along, unless main rests on its base, which
/// names nothing.
pub proof fn a_tree_is_not_named_for_the_base(branch: Seq<char>, other: Seq<char>)
    ensures
        leaving_stem(branch, Some(branch)) == "work"@,
        leaving_stem(branch, None) == stem(branch),
        other != branch ==> leaving_stem(branch, Some(other)) == stem(branch),
{
}

/// The stem for the tree that takes a branch out of main: the branch's own, unless main
/// is resting on its base and there is no branch to name it for.
pub fn tree_stem(branch: &str, base: Option<&str>) -> (r: String)
    ensures
        r@ == leaving_stem(branch@, crate::text::opt_str(base)),
{
    if crate::text::same_opt(base, Some(branch)) {
        "work".to_owned()
    } else {
        branch_leaf(branch)
    }
}

/// A name that is free is one that nothing on disk has, unless all ninety-nine are
/// taken.
pub proof fn a_free_name_is_free(s: Seq<char>, taken: Seq<Seq<char>>, n: nat)
    requires
        1 <= n,
    ensures
        taken.contains(free_from(s, taken, n)) ==> forall|k: nat|
            n <= k < 100 ==> taken.contains(#[trigger] nth_name(s, k)),
    decreases 100 - n,
{
    if n < 100 && taken.contains(nth_name(s, n)) {
        a_free_name_is_free(s, taken, n + 1);
    }
}

/// Every branch gives a name that a worktree can go by.
pub proof fn every_branch_gives_a_valid_name(branch: Seq<char>, taken: Seq<Seq<char>>)
    ensures
        name_refusal(stem(branch)) is None,
        name_refusal(free_from(stem(branch), taken, 1)) is None,
{
    lemma_stem(branch);
    lemma_valid(stem(branch));
    lemma_free_valid(stem(branch), taken, 1);
}

spec fn plain(s: Seq<char>) -> bool {
    forall|i: int|
        0 <= i < s.len() ==> (is_letter(#[trigger] s[i]) || is_digit(s[i]) || s[i] == '-' || s[i]
            == '_')
}

proof fn lemma_valid(s: Seq<char>)
    requires
        plain(s),
        0 < s.len() <= 64,
    ensures
        name_refusal(s) is None,
{
    assert(is_ascii_chars(s));
    is_ascii_chars_encode_utf8(s);
    assert(byte_len(s) <= 64);
    assert forall|i: int| 0 <= i < s.len() implies is_name_char(#[trigger] s[i]) by {}
    assert forall|i: int| 0 <= i < s.len() - 1 implies #[trigger] s[i] != '.' by {}
}

proof fn lemma_free_valid(s: Seq<char>, taken: Seq<Seq<char>>, n: nat)
    requires
        plain(s),
        0 < s.len() <= 48,
        1 <= n,
    ensures
        name_refusal(free_from(s, taken, n)) is None,
    decreases 100 - n,
{
    lemma_valid(s);
    if n < 100 {
        if taken.contains(nth_name(s, n)) {
            lemma_free_valid(s, taken, n + 1);
        } else if n > 1 {
            reveal_strlit("-");
            let name = nth_name(s, n);
            assert(decimal(n).len() <= 2 && (forall|i: int|
                0 <= i < decimal(n).len() ==> is_digit(#[trigger] decimal(n)[i]))) by {
                reveal_with_fuel(decimal, 3);
            }
            assert forall|i: int| 0 <= i < name.len() implies (is_letter(#[trigger] name[i])
                || is_digit(name[i]) || name[i] == '-' || name[i] == '_') by {
                if i < s.len() {
                    assert(name[i] == s[i]);
                } else if i > s.len() {
                    assert(name[i] == decimal(n)[i - s.len() - 1]);
                }
            }
            lemma_valid(name);
        }
    }
}

proof fn lemma_stem(branch: Seq<char>)
    ensures
        plain(stem(branch)),
        0 < stem(branch).len() <= 48,
{
    reveal_strlit("work");
    let all = safe_text(leaf(branch));
    assert(plain(all));
    let a = without_leading_dashes(all);
    lemma_leading(all);
    lemma_trailing(a);
    let bare = without_trailing_dashes(a);
    if bare.len() == 0 {
        assert(plain("work"@));
    }
}

proof fn lemma_leading(s: Seq<char>)
    requires
        plain(s),
    ensures
        plain(without_leading_dashes(s)),
    decreases s.len(),
{
    if s.len() > 0 && s[0] == '-' {
        assert(plain(s.skip(1)));
        lemma_leading(s.skip(1));
    }
}

proof fn lemma_trailing(s: Seq<char>)
    requires
        plain(s),
    ensures
        plain(without_trailing_dashes(s)),
    decreases s.len(),
{
    if s.len() > 0 && s.last() == '-' {
        assert(plain(s.drop_last()));
        lemma_trailing(s.drop_last());
    }
}

/// A tree keeps its own stem wherever that is free, and otherwise gets the lowest number
/// that is.
pub proof fn a_free_stem_is_kept(s: Seq<char>, taken: Seq<Seq<char>>, n: nat)
    requires
        1 <= n < 100,
        forall|k: nat| 1 <= k < n ==> taken.contains(#[trigger] nth_name(s, k)),
        !taken.contains(nth_name(s, n)),
    ensures
        free_from(s, taken, 1) == nth_name(s, n),
        n == 1 ==> free_from(s, taken, 1) == s,
        n > 1 ==> free_from(s, taken, 1) == s + "-"@ + decimal(n),
{
    lemma_free_reaches(s, taken, 1, n);
}

proof fn lemma_free_reaches(s: Seq<char>, taken: Seq<Seq<char>>, from: nat, n: nat)
    requires
        1 <= from <= n < 100,
        forall|k: nat| from <= k < n ==> taken.contains(#[trigger] nth_name(s, k)),
        !taken.contains(nth_name(s, n)),
    ensures
        free_from(s, taken, from) == nth_name(s, n),
    decreases n - from,
{
    if from < n {
        assert(taken.contains(nth_name(s, from)));
        lemma_free_reaches(s, taken, from + 1, n);
    }
}

} // verus!
