//! A filed story, and what has been filed.

use vstd::prelude::*;
use vstd::string::*;
use crate::text::{
    cat5, chars_of, cut_once, find, first_at, is_digit, is_letter, letter, lower_chars, lowered,
    matches_at, numeral, same, starts_with, trim, trimmed,
};

verus! {

/// How many letters a text starts with.
pub open spec fn leading_letters(s: Seq<char>) -> nat
    decreases s.len(),
{
    if s.len() > 0 && is_letter(s[0]) {
        1 + leading_letters(s.skip(1))
    } else {
        0
    }
}

pub open spec fn all_digits(s: Seq<char>) -> bool {
    forall|i: int| 0 <= i < s.len() ==> is_digit(#[trigger] s[i])
}

/// The number in a story id: one to eight letters, a dash or none, and one to twelve
/// digits. Anything else has no number.
pub open spec fn story_number(id: Seq<char>) -> Option<Seq<char>> {
    let n = leading_letters(id) as int;
    let after = id.skip(n);
    let rest = if after.len() > 0 && after[0] == '-' {
        after.skip(1)
    } else {
        after
    };
    if 1 <= n <= 8 && 1 <= rest.len() <= 12 && all_digits(rest) {
        Some(rest)
    } else {
        None
    }
}

/// A path without its query and fragment.
pub open spec fn bare_path(s: Seq<char>) -> Seq<char> {
    let q = first_at(s, '?');
    let h = first_at(s, '#');
    s.take(if q < h {
        q
    } else {
        h
    })
}

/// Whether `s[lo..hi]` is what stands between two slashes, or between one and an end.
pub open spec fn is_segment(s: Seq<char>, lo: int, hi: int) -> bool {
    &&& 0 <= lo <= hi <= s.len()
    &&& lo == 0 || s[lo - 1] == '/'
    &&& hi == s.len() || s[hi] == '/'
    &&& forall|k: int| lo <= k < hi ==> s[k] != '/'
}

/// Whether a path segment is a story's number, or its whole id in either case.
pub open spec fn segment_names(seg: Seq<char>, id: Seq<char>, number: Seq<char>) -> bool {
    seg == number || lowered(seg) == lowered(id)
}

pub open spec fn some_segment_names(path: Seq<char>, id: Seq<char>, number: Seq<char>) -> bool {
    exists|lo: int, hi: int| #[trigger]
        is_segment(path, lo, hi) && segment_names(path.subrange(lo, hi), id, number)
}

/// Whether a URL points at the story of that id on the tracker's own host: `https`,
/// the host and nothing else as its authority, and a segment of its path that is the
/// id's number or the id.
pub open spec fn points_at(id: Seq<char>, url: Seq<char>, host: Seq<char>) -> bool {
    match story_number(id) {
        None => false,
        Some(number) => "https://"@.is_prefix_of(url) && match cut_once(
            url.skip("https://"@.len() as int),
            '/',
        ) {
            None => false,
            Some((authority, path)) => lowered(authority) == lowered(host) && some_segment_names(
                bare_path(path),
                id,
                number,
            ),
        },
    }
}

proof fn lemma_leading_letters(s: Seq<char>, n: int)
    requires
        0 <= n <= s.len(),
        forall|k: int| 0 <= k < n ==> is_letter(#[trigger] s[k]),
        n < s.len() ==> !is_letter(s[n]),
    ensures
        leading_letters(s) == n,
    decreases n,
{
    if n > 0 {
        let rest = s.skip(1);
        assert forall|k: int| 0 <= k < n - 1 implies is_letter(#[trigger] rest[k]) by {
            assert(is_letter(s[k + 1]));
        }
        lemma_leading_letters(rest, n - 1);
    }
}

/// The number in a well-formed story id, as its place in the id.
fn well_formed_id(id: &Vec<char>) -> (r: Option<usize>)
    ensures
        match r {
            Some(at) => at <= id@.len() && story_number(id@) == Some(id@.skip(at as int)),
            None => story_number(id@) is None,
        },
{
    let n: usize = id.len();
    let mut letters: usize = 0;
    while letters < n && letter(id[letters])
        invariant
            n == id@.len(),
            letters <= n,
            forall|k: int| 0 <= k < letters ==> is_letter(#[trigger] id@[k]),
        decreases n - letters,
    {
        letters += 1;
    }
    proof {
        lemma_leading_letters(id@, letters as int);
    }
    if letters < 1 || letters > 8 {
        return None;
    }
    let at: usize = if letters < n && id[letters] == '-' {
        letters + 1
    } else {
        letters
    };
    let ghost rest = id@.skip(at as int);
    proof {
        if letters < n {
            assert(id@.skip(letters as int)[0] == id@[letters as int]);
            assert(id@.skip(letters as int).skip(1) =~= id@.skip(letters + 1));
        }
    }
    if n - at < 1 || n - at > 12 {
        return None;
    }
    let mut i: usize = at;
    while i < n
        invariant
            n == id@.len(),
            at <= i <= n,
            rest == id@.skip(at as int),
            story_number(id@) == if all_digits(rest) {
                Some(rest)
            } else {
                None
            },
            forall|k: int| 0 <= k < i - at ==> is_digit(#[trigger] rest[k]),
        decreases n - i,
    {
        if !numeral(id[i]) {
            proof {
                assert(!is_digit(rest[i - at]));
            }
            return None;
        }
        i += 1;
    }
    Some(at)
}

fn names_story(path: &Vec<char>, lo: usize, hi: usize, id: &Vec<char>, at: usize) -> (r: bool)
    requires
        lo <= hi <= path@.len(),
        at <= id@.len(),
    ensures
        r == segment_names(path@.subrange(lo as int, hi as int), id@, id@.skip(at as int)),
{
    let mut number: Vec<char> = Vec::new();
    let mut i: usize = at;
    while i < id.len()
        invariant
            at <= i <= id@.len(),
            number@ == id@.subrange(at as int, i as int),
        decreases id@.len() - i,
    {
        number.push(id[i]);
        proof {
            assert(id@.subrange(at as int, i + 1) =~= id@.subrange(at as int, i as int).push(
                id@[i as int],
            ));
        }
        i += 1;
    }
    proof {
        assert(number@ =~= id@.skip(at as int));
    }
    if hi - lo == number.len() && matches_at(path, lo, &number) {
        return true;
    }
    let a: Vec<char> = lower_chars(path, lo, hi);
    let b: Vec<char> = lower_chars(id, 0, id.len());
    proof {
        assert(id@.subrange(0, id@.len() as int) =~= id@);
    }
    a.len() == b.len() && matches_at(&a, 0, &b)
}

fn find_segment(path: &Vec<char>, id: &Vec<char>, at: usize) -> (r: bool)
    requires
        at <= id@.len(),
    ensures
        r == some_segment_names(path@, id@, id@.skip(at as int)),
{
    let n: usize = path.len();
    let mut lo: usize = 0;
    let mut i: usize = 0;
    let ghost number = id@.skip(at as int);
    loop
        invariant
            n == path@.len(),
            at <= id@.len(),
            number == id@.skip(at as int),
            lo <= i <= n,
            lo == 0 || path@[lo - 1] == '/',
            forall|k: int| lo <= k < i ==> path@[k] != '/',
            forall|a: int, b: int| #[trigger]
                is_segment(path@, a, b) && b < i ==> !segment_names(
                    path@.subrange(a, b),
                    id@,
                    number,
                ),
        decreases n - i,
    {
        if i == n || path[i] == '/' {
            proof {
                assert forall|a: int| #[trigger] is_segment(path@, a, i as int) implies a == lo by {
                    if a < lo {
                        assert(path@[lo - 1] == '/');
                    } else if lo < a {
                        assert(path@[a - 1] == '/');
                    }
                }
            }
            if names_story(path, lo, i, id, at) {
                proof {
                    assert(is_segment(path@, lo as int, i as int));
                }
                return true;
            }
            if i == n {
                proof {
                    assert forall|a: int, b: int| #[trigger]
                        is_segment(path@, a, b) implies !segment_names(
                        path@.subrange(a, b),
                        id@,
                        number,
                    ) by {
                        if b == n {
                            assert(a == lo);
                        }
                    }
                }
                return false;
            }
            lo = i + 1;
        }
        i += 1;
    }
}

fn rest_of(chars: &Vec<char>, from: usize, to: usize) -> (r: Vec<char>)
    requires
        from <= to <= chars@.len(),
    ensures
        r@ == chars@.subrange(from as int, to as int),
{
    let mut out: Vec<char> = Vec::new();
    let mut i: usize = from;
    while i < to
        invariant
            from <= i <= to <= chars@.len(),
            out@ == chars@.subrange(from as int, i as int),
        decreases to - i,
    {
        out.push(chars[i]);
        proof {
            assert(chars@.subrange(from as int, i + 1) =~= chars@.subrange(
                from as int,
                i as int,
            ).push(chars@[i as int]));
        }
        i += 1;
    }
    out
}

fn consistent_pair(id: &str, url: &str, host: &str) -> (r: bool)
    ensures
        r == points_at(id@, url@, host@),
{
    let idc: Vec<char> = chars_of(id);
    let at: usize = match well_formed_id(&idc) {
        Some(at) => at,
        None => {
            return false;
        },
    };
    if !starts_with(url, "https://") {
        return false;
    }
    proof {
        reveal_strlit("https://");
    }
    let urlc: Vec<char> = chars_of(url);
    let rest: Vec<char> = rest_of(&urlc, 8, urlc.len());
    proof {
        assert(rest@ =~= url@.skip(8));
    }
    let slash: usize = find(&rest, '/');
    if slash == rest.len() {
        return false;
    }
    let hostc: Vec<char> = chars_of(host);
    let a: Vec<char> = lower_chars(&rest, 0, slash);
    let b: Vec<char> = lower_chars(&hostc, 0, hostc.len());
    proof {
        assert(rest@.subrange(0, slash as int) =~= rest@.take(slash as int));
        assert(hostc@.subrange(0, hostc@.len() as int) =~= hostc@);
    }
    if !(a.len() == b.len() && matches_at(&a, 0, &b)) {
        return false;
    }
    let path: Vec<char> = rest_of(&rest, slash + 1, rest.len());
    proof {
        assert(path@ =~= rest@.skip(slash + 1));
    }
    let q: usize = find(&path, '?');
    let h: usize = find(&path, '#');
    let end: usize = if q < h {
        q
    } else {
        h
    };
    let bare: Vec<char> = rest_of(&path, 0, end);
    proof {
        assert(bare@ =~= bare_path(path@));
    }
    find_segment(&bare, &idc, at)
}

/// A story that exists in the tracker.
///
/// The fields are private: a pair that was never checked can only come in through
/// [`StoryRef::stored`].
#[derive(Debug)]
pub struct StoryRef {
    id: String,
    url: String,
}

/// A markdown link to a story, by its id.
pub open spec fn link_text(id: Seq<char>, url: Seq<char>) -> Seq<char> {
    "["@ + id + "]("@ + url + ")"@
}

impl StoryRef {
    pub closed spec fn id_text(self) -> Seq<char> {
        self.id@
    }

    pub closed spec fn url_text(self) -> Seq<char> {
        self.url@
    }

    /// A story reference, or `None` when the id and the URL do not hang together.
    pub fn new(id: &str, url: &str, host: &str) -> (r: Option<Self>)
        ensures
            r is Some == points_at(trimmed(id@), trimmed(url@), host@),
            r matches Some(s) ==> s.id_text() == trimmed(id@) && s.url_text() == trimmed(url@),
    {
        let s: StoryRef = StoryRef { id: trim(id), url: trim(url) };
        if s.consistent(host) {
            Some(s)
        } else {
            None
        }
    }

    /// A pair read back from disk, as it was written there and unchecked.
    pub fn stored(id: String, url: String) -> (r: Self)
        ensures
            r.id_text() == id@,
            r.url_text() == url@,
    {
        StoryRef { id, url }
    }

    pub fn id(&self) -> (r: &str)
        ensures
            r@ == self.id_text(),
    {
        self.id.as_str()
    }

    pub fn url(&self) -> (r: &str)
        ensures
            r@ == self.url_text(),
    {
        self.url.as_str()
    }

    /// What stands for the story in a posted reply: a markdown link.
    pub open spec fn linked(self) -> Seq<char> {
        link_text(self.id_text(), self.url_text())
    }

    /// What stands for the story in a posted reply: a markdown link.
    pub fn link(&self) -> (r: String)
        ensures
            r@ == self.linked(),
    {
        cat5("[", self.id.as_str(), "](", self.url.as_str(), ")")
    }

    /// Does the URL actually point at this id, on the tracker's own host?
    pub fn consistent(&self, host: &str) -> (r: bool)
        ensures
            r == points_at(self.id_text(), self.url_text(), host@),
    {
        consistent_pair(self.id.as_str(), self.url.as_str(), host)
    }

    /// Whether the id alone is of the shape a tracker hands out.
    pub fn well_formed(&self) -> (r: bool)
        ensures
            r == (story_number(self.id_text()) is Some),
    {
        let chars: Vec<char> = chars_of(self.id.as_str());
        well_formed_id(&chars).is_some()
    }
}

impl PartialEq for StoryRef {
    fn eq(&self, other: &StoryRef) -> (r: bool) {
        same(self.id.as_str(), other.id.as_str()) && same(self.url.as_str(), other.url.as_str())
    }
}

impl vstd::std_specs::cmp::PartialEqSpecImpl for StoryRef {
    open spec fn obeys_eq_spec() -> bool {
        true
    }

    open spec fn eq_spec(&self, other: &StoryRef) -> bool {
        self.id_text() == other.id_text() && self.url_text() == other.url_text()
    }
}

impl Clone for StoryRef {
    fn clone(&self) -> (r: Self)
        ensures
            r == *self,
    {
        StoryRef { id: self.id.clone(), url: self.url.clone() }
    }
}

/// No reference that was checked renders anything but one link to the tracker: the id
/// holds neither bracket nor parenthesis, so it cannot close the link text early.
pub proof fn a_checked_id_cannot_escape_its_link(id: Seq<char>, i: int)
    requires
        story_number(id) is Some,
        0 <= i < id.len(),
    ensures
        is_letter(id[i]) || is_digit(id[i]) || id[i] == '-',
{
    lemma_letters_are_letters(id);
    let n = leading_letters(id) as int;
    let after = id.skip(n);
    if i >= n {
        if after[0] == '-' {
            if i > n {
                assert(after.skip(1)[i - n - 1] == id[i]);
            }
        } else {
            assert(after[i - n] == id[i]);
        }
    }
}

proof fn lemma_letters_are_letters(s: Seq<char>)
    ensures
        leading_letters(s) <= s.len(),
        forall|k: int| 0 <= k < leading_letters(s) ==> is_letter(#[trigger] s[k]),
    decreases s.len(),
{
    if s.len() > 0 && is_letter(s[0]) {
        let rest = s.skip(1);
        lemma_letters_are_letters(rest);
        assert forall|k: int| 0 <= k < leading_letters(s) implies is_letter(#[trigger] s[k]) by {
            if k > 0 {
                assert(is_letter(rest[k - 1]));
            }
        }
    }
}

/// Every id of a tracker's shape is known by its number: one to eight letters, a dash or
/// none, and one to twelve digits.
pub proof fn an_id_is_known_by_its_number(letters: Seq<char>, digits: Seq<char>)
    requires
        1 <= letters.len() <= 8,
        forall|i: int|
            0 <= i < letters.len() ==> 'a' <= #[trigger] letters[i] <= 'z' || 'A' <= letters[i]
                <= 'Z',
        1 <= digits.len() <= 12,
        forall|i: int| 0 <= i < digits.len() ==> '0' <= #[trigger] digits[i] <= '9',
    ensures
        story_number(letters + digits) == Some(digits),
        story_number(letters.push('-') + digits) == Some(digits),
{
    let n = letters.len() as int;
    let one = letters + digits;
    assert forall|k: int| 0 <= k < n implies is_letter(#[trigger] one[k]) by {
        assert(one[k] == letters[k]);
    }
    assert(one[n] == digits[0]);
    lemma_leading_letters(one, n);
    assert(one.skip(n) =~= digits);
    let two = letters.push('-') + digits;
    assert forall|k: int| 0 <= k < n implies is_letter(#[trigger] two[k]) by {
        assert(two[k] == letters[k]);
    }
    assert(two[n] == '-');
    lemma_leading_letters(two, n);
    assert(two.skip(n)[0] == '-');
    assert(two.skip(n).skip(1) =~= digits);
}

/// Nothing else has a number: not without a letter, not without a digit, and not with
/// anything behind the digits.
pub proof fn what_is_no_id_has_no_number(id: Seq<char>)
    ensures
        story_number(id) matches Some(number) ==> {
            &&& 1 <= number.len() <= 12
            &&& number.is_suffix_of(id)
            &&& number.len() < id.len() <= 8 + 1 + number.len()
            &&& forall|i: int| 0 <= i < number.len() ==> '0' <= #[trigger] number[i] <= '9'
            &&& is_letter(id[0])
        },
{
    lemma_letters_are_letters(id);
    if let Some(number) = story_number(id) {
        let n = leading_letters(id) as int;
        let after = id.skip(n);
        if after.len() > 0 && after[0] == '-' {
            assert(number =~= id.skip(n + 1));
        }
        assert(id.subrange(id.len() - number.len(), id.len() as int) =~= number);
        assert forall|i: int| 0 <= i < number.len() implies '0' <= #[trigger] number[i] <= '9' by {
            assert(is_digit(number[i]));
        }
        assert(is_letter(id[0]));
    }
}

/// A story's own page points at it: over `https`, on the tracker's host in either case, with
/// the number or the id as one part of its path, whatever stands around it.
pub proof fn a_storys_own_page_points_at_it(
    id: Seq<char>,
    host: Seq<char>,
    path: Seq<char>,
    lo: int,
    hi: int,
)
    requires
        story_number(id) is Some,
        !host.contains('/'),
        !path.contains('?'),
        !path.contains('#'),
        0 <= lo <= hi <= path.len(),
        lo == 0 || path[lo - 1] == '/',
        hi == path.len() || path[hi] == '/',
        forall|k: int| lo <= k < hi ==> path[k] != '/',
        path.subrange(lo, hi) == story_number(id)->Some_0 || path.subrange(lo, hi) == id,
    ensures
        points_at(id, "https://"@ + host + "/"@ + path, host),
{
    reveal_strlit("https://");
    reveal_strlit("/");
    let url = "https://"@ + host + "/"@ + path;
    assert(url.subrange(0, 8) =~= "https://"@);
    let rest = url.skip(8);
    let h = host.len() as int;
    assert(rest =~= host + "/"@ + path);
    assert forall|k: int| 0 <= k < h implies rest[k] != '/' by {
        assert(rest[k] == host[k]);
        assert(host.contains(host[k]));
    }
    assert(rest[h] == '/');
    crate::text::lemma_first_at(rest, '/', h);
    assert(rest.take(h) =~= host);
    assert(rest.skip(h + 1) =~= path);
    assert forall|k: int| 0 <= k < path.len() implies path[k] != '?' && path[k] != '#' by {
        assert(path.contains(path[k]));
    }
    crate::text::lemma_first_at(path, '?', path.len() as int);
    crate::text::lemma_first_at(path, '#', path.len() as int);
    assert(bare_path(path) =~= path);
    assert(is_segment(path, lo, hi));
}

/// Nothing points at a story from another host, over another scheme, or without a part of its
/// path that names it.
pub proof fn nothing_else_points_at_a_story(id: Seq<char>, url: Seq<char>, host: Seq<char>)
    requires
        points_at(id, url, host),
    ensures
        "https://"@.is_prefix_of(url),
        story_number(id) is Some,
        ({
            let rest = url.skip("https://"@.len() as int);
            let cut = cut_once(rest, '/');
            &&& cut is Some
            &&& lowered(cut->Some_0.0) == lowered(host)
            &&& exists|lo: int, hi: int| #[trigger]
                is_segment(bare_path(cut->Some_0.1), lo, hi) && (bare_path(
                    cut->Some_0.1,
                ).subrange(lo, hi) == story_number(id)->Some_0 || lowered(
                    bare_path(cut->Some_0.1).subrange(lo, hi),
                ) == lowered(id))
        }),
{
    let path = bare_path(cut_once(url.skip("https://"@.len() as int), '/')->Some_0.1);
    let (lo, hi) = choose|lo: int, hi: int| #[trigger]
        is_segment(path, lo, hi) && segment_names(
            path.subrange(lo, hi),
            id,
            story_number(id)->Some_0,
        );
    assert(is_segment(path, lo, hi));
}

// ---------------------------------------------------------------------------
// What has been filed
// ---------------------------------------------------------------------------

/// One filed story: the PR and the thread it answers.
struct Filing {
    pr: u64,
    thread: String,
    story: StoryRef,
}

spec fn filing_key(f: Filing) -> (u64, Seq<char>) {
    (f.pr, f.thread@)
}

spec fn filings(s: Seq<Filing>) -> Map<(u64, Seq<char>), StoryRef>
    decreases s.len(),
{
    if s.len() == 0 {
        Map::empty()
    } else {
        filings(s.drop_last()).insert(filing_key(s.last()), s.last().story)
    }
}

spec fn keys_differ(s: Seq<Filing>) -> bool {
    forall|i: int, j: int|
        0 <= i < j < s.len() ==> filing_key(#[trigger] s[i]) != filing_key(#[trigger] s[j])
}

proof fn lemma_filings(s: Seq<Filing>)
    requires
        keys_differ(s),
    ensures
        forall|i: int|
            0 <= i < s.len() ==> filings(s).contains_key(filing_key(#[trigger] s[i])) && filings(
                s,
            )[filing_key(s[i])] == s[i].story,
        forall|k: (u64, Seq<char>)| #[trigger]
            filings(s).contains_key(k) ==> exists|i: int|
                0 <= i < s.len() && filing_key(#[trigger] s[i]) == k,
        filings(s).dom().finite(),
        filings(s).dom().len() == s.len(),
    decreases s.len(),
{
    if s.len() > 0 {
        let front = s.drop_last();
        lemma_filings(front);
        assert forall|k: (u64, Seq<char>)| #[trigger] filings(s).contains_key(k) implies exists|
            i: int,
        | 0 <= i < s.len() && filing_key(#[trigger] s[i]) == k by {
            if k == filing_key(s.last()) {
                assert(filing_key(s[s.len() - 1]) == k);
            } else {
                let i = choose|i: int| 0 <= i < front.len() && filing_key(#[trigger] front[i]) == k;
                assert(filing_key(s[i]) == k);
            }
        }
        assert forall|i: int| 0 <= i < s.len() implies filings(s).contains_key(
            filing_key(#[trigger] s[i]),
        ) && filings(s)[filing_key(s[i])] == s[i].story by {
            if i < front.len() {
                assert(front[i] == s[i]);
                assert(filing_key(s[i]) != filing_key(s[s.len() - 1]));
            }
        }
        assert(!filings(front).contains_key(filing_key(s.last()))) by {
            if filings(front).contains_key(filing_key(s.last())) {
                let i = choose|i: int|
                    0 <= i < front.len() && filing_key(#[trigger] front[i]) == filing_key(s.last());
                assert(filing_key(s[i]) != filing_key(s[s.len() - 1]));
            }
        }
    }
}

/// Stories filed per PR, keyed by the thread they answer.
pub struct Cache {
    entries: Vec<Filing>,
}

/// The stories that a list holds by PR and thread, the later of two for one thread
/// counting.
pub open spec fn listed_stories(list: Seq<(u64, String, StoryRef)>) -> Map<
    (u64, Seq<char>),
    StoryRef,
>
    decreases list.len(),
{
    if list.len() == 0 {
        Map::empty()
    } else {
        listed_stories(list.drop_last()).insert(
            (list.last().0, list.last().1@),
            list.last().2,
        )
    }
}

impl Default for Cache {
    fn default() -> (r: Self)
        ensures
            r.wf(),
            r.view() == Map::<(u64, Seq<char>), StoryRef>::empty(),
    {
        Cache::new()
    }
}

/// Whether a stored story is one this daemon would still be willing to write: checked
/// against the tracker's host where there is one, and by its id alone where there is
/// not.
pub open spec fn servable_story(s: StoryRef, host: Option<Seq<char>>) -> bool {
    match host {
        Some(h) => points_at(s.id_text(), s.url_text(), h),
        None => story_number(s.id_text()) is Some,
    }
}

/// The story that a cache serves for a thread.
pub open spec fn served(
    c: Map<(u64, Seq<char>), StoryRef>,
    pr: u64,
    thread: Seq<char>,
    host: Option<Seq<char>>,
) -> Option<StoryRef> {
    if c.contains_key((pr, thread)) && servable_story(c[(pr, thread)], host) {
        Some(c[(pr, thread)])
    } else {
        None
    }
}

impl Cache {
    /// No thread of a PR has two stories.
    pub closed spec fn wf(self) -> bool {
        keys_differ(self.entries@)
    }

    /// The stories by PR and thread.
    pub closed spec fn view(self) -> Map<(u64, Seq<char>), StoryRef> {
        filings(self.entries@)
    }

    pub fn new() -> (r: Self)
        ensures
            r.wf(),
            r.view() == Map::<(u64, Seq<char>), StoryRef>::empty(),
    {
        Cache { entries: Vec::new() }
    }

    fn place(&self, pr: u64, thread_id: &str) -> (r: Option<usize>)
        requires
            self.wf(),
        ensures
            match r {
                Some(i) => i < self.entries@.len() && filing_key(self.entries@[i as int]) == (
                    pr,
                    thread_id@,
                ) && self.view().contains_key((pr, thread_id@)) && self.view()[(pr, thread_id@)]
                    == self.entries@[i as int].story,
                None => !self.view().contains_key((pr, thread_id@)) && forall|k: int|
                    0 <= k < self.entries@.len() ==> filing_key(#[trigger] self.entries@[k]) != (
                        pr,
                        thread_id@,
                    ),
            },
    {
        proof {
            lemma_filings(self.entries@);
        }
        let mut i: usize = 0;
        while i < self.entries.len()
            invariant
                i <= self.entries@.len(),
                forall|k: int|
                    0 <= k < i ==> filing_key(#[trigger] self.entries@[k]) != (pr, thread_id@),
                forall|k: int|
                    0 <= k < self.entries@.len() ==> self.view().contains_key(
                        filing_key(#[trigger] self.entries@[k]),
                    ) && self.view()[filing_key(self.entries@[k])] == self.entries@[k].story,
            decreases self.entries@.len() - i,
        {
            let f: &Filing = &self.entries[i];
            if f.pr == pr && same(f.thread.as_str(), thread_id) {
                return Some(i);
            }
            i += 1;
        }
        None
    }

    /// A stored story, if it is still one this daemon would be willing to write. What
    /// was written before the id was checked is refused on the way out.
    pub fn get(&self, pr: u64, thread_id: &str, host: Option<&str>) -> (r: Option<&StoryRef>)
        requires
            self.wf(),
        ensures
            served(self.view(), pr, thread_id@, crate::text::opt_str(host)) == match r {
                Some(s) => Some(*s),
                None => None,
            },
    {
        match self.place(pr, thread_id) {
            None => None,
            Some(i) => {
                let hit: &StoryRef = &self.entries[i].story;
                let ok: bool = match host {
                    Some(h) => hit.consistent(h),
                    None => hit.well_formed(),
                };
                if ok {
                    Some(hit)
                } else {
                    None
                }
            },
        }
    }

    /// Remember a story, in place of what was there for the same thread.
    pub fn put(&mut self, pr: u64, thread_id: &str, story: StoryRef)
        requires
            old(self).wf(),
        ensures
            final(self).wf(),
            final(self).view() == old(self).view().insert((pr, thread_id@), story),
    {
        let at: Option<usize> = self.place(pr, thread_id);
        proof {
            lemma_filings(self.entries@);
        }
        let ghost before = self.entries@;
        let fresh: Filing = Filing { pr, thread: thread_id.to_owned(), story };
        match at {
            Some(i) => {
                proof {
                    let after = before.update(i as int, fresh);
                    assert forall|a: int, b: int| 0 <= a < b < after.len() implies filing_key(
                        #[trigger] after[a],
                    ) != filing_key(#[trigger] after[b]) by {
                        assert(filing_key(before[a]) != filing_key(before[b]));
                        assert(filing_key(before[a]) == filing_key(after[a]));
                        assert(filing_key(before[b]) == filing_key(after[b]));
                    }
                    lemma_filings(after);
                    lemma_replaced(before, i as int, fresh);
                }
                self.entries.set(i, fresh);
            },
            None => {
                proof {
                    assert(before.push(fresh).drop_last() =~= before);
                    assert(keys_differ(before.push(fresh)));
                }
                self.entries.push(fresh);
            },
        }
    }

    /// Every story in the cache, to be written down.
    pub fn entries(&self) -> (r: Vec<(u64, String, StoryRef)>)
        requires
            self.wf(),
        ensures
            listed_stories(r@) == self.view(),
            self.view().dom().finite(),
            r@.len() == self.view().dom().len(),
    {
        let mut out: Vec<(u64, String, StoryRef)> = Vec::new();
        let mut i: usize = 0;
        proof {
            lemma_filings(self.entries@);
            assert(filings(self.entries@.take(0)) =~= listed_stories(out@));
        }
        while i < self.entries.len()
            invariant
                i <= self.entries@.len(),
                out@.len() == i,
                listed_stories(out@) == filings(self.entries@.take(i as int)),
            decreases self.entries@.len() - i,
        {
            let f: &Filing = &self.entries[i];
            let ghost before = out@;
            out.push((f.pr, f.thread.clone(), f.story.clone()));
            proof {
                assert(out@.drop_last() =~= before);
                assert(self.entries@.take(i + 1).drop_last() =~= self.entries@.take(i as int));
                assert(self.entries@.take(i + 1).last() == self.entries@[i as int]);
            }
            i += 1;
        }
        proof {
            assert(self.entries@.take(i as int) =~= self.entries@);
        }
        out
    }

    /// The cache that a list of stories was written down from, the later of two for one
    /// thread last.
    pub fn of_entries(list: Vec<(u64, String, StoryRef)>) -> (r: Self)
        ensures
            r.wf(),
            r.view() == listed_stories(list@),
    {
        let mut cache: Cache = Cache::new();
        let mut i: usize = 0;
        while i < list.len()
            invariant
                cache.wf(),
                i <= list@.len(),
                cache.view() == listed_stories(list@.take(i as int)),
            decreases list@.len() - i,
        {
            proof {
                assert(list@.take(i + 1).drop_last() =~= list@.take(i as int));
                assert(list@.take(i + 1).last() == list@[i as int]);
            }
            cache.put(list[i].0, list[i].1.as_str(), list[i].2.clone());
            i += 1;
        }
        proof {
            assert(list@.take(i as int) =~= list@);
        }
        cache
    }

    pub fn len(&self) -> (r: usize)
        requires
            self.wf(),
        ensures
            self.view().dom().finite(),
            r == self.view().dom().len(),
    {
        proof {
            lemma_filings(self.entries@);
        }
        self.entries.len()
    }

    pub fn is_empty(&self) -> (r: bool)
        requires
            self.wf(),
        ensures
            r == (self.view() == Map::<(u64, Seq<char>), StoryRef>::empty()),
    {
        proof {
            lemma_filings(self.entries@);
            if self.entries@.len() == 0 {
                assert(self.view() =~= Map::<(u64, Seq<char>), StoryRef>::empty());
            } else {
                assert(self.view().contains_key(filing_key(self.entries@[0])));
            }
        }
        self.len() == 0
    }
}

proof fn lemma_replaced(s: Seq<Filing>, i: int, f: Filing)
    requires
        keys_differ(s),
        0 <= i < s.len(),
        filing_key(f) == filing_key(s[i]),
        keys_differ(s.update(i, f)),
    ensures
        filings(s.update(i, f)) == filings(s).insert(filing_key(f), f.story),
{
    let after = s.update(i, f);
    lemma_filings(s);
    lemma_filings(after);
    assert forall|k: (u64, Seq<char>)| #[trigger]
        filings(after).contains_key(k) == filings(s).insert(
            filing_key(f),
            f.story,
        ).contains_key(k) by {
        if filings(after).contains_key(k) {
            let j = choose|j: int| 0 <= j < after.len() && filing_key(#[trigger] after[j]) == k;
            assert(filing_key(s[j]) == k);
        }
        if filings(s).contains_key(k) {
            let j = choose|j: int| 0 <= j < s.len() && filing_key(#[trigger] s[j]) == k;
            assert(filing_key(after[j]) == k);
        }
        if k == filing_key(f) {
            assert(filing_key(after[i]) == k);
        }
    }
    assert forall|k: (u64, Seq<char>)| #[trigger]
        filings(after).contains_key(k) implies filings(after)[k] == filings(s).insert(
        filing_key(f),
        f.story,
    )[k] by {
        let j = choose|j: int| 0 <= j < after.len() && filing_key(#[trigger] after[j]) == k;
        assert(filing_key(s[j]) == k);
        if j != i {
            if j < i {
                assert(filing_key(s[j]) != filing_key(s[i]));
            } else {
                assert(filing_key(s[i]) != filing_key(s[j]));
            }
        }
    }
    assert(filings(after) =~= filings(s).insert(filing_key(f), f.story));
}

/// Reading a thread's story back gives what was last put there, if it still holds
/// together, and putting one leaves every other thread's as it was.
pub proof fn a_get_gives_back_the_last_put(
    c: Map<(u64, Seq<char>), StoryRef>,
    pr: u64,
    thread: Seq<char>,
    story: StoryRef,
    other: (u64, Seq<char>),
    host: Option<Seq<char>>,
)
    ensures
        served(c.insert((pr, thread), story), pr, thread, host) == if servable_story(story, host) {
            Some(story)
        } else {
            None
        },
        other != (pr, thread) ==> served(c.insert((pr, thread), story), other.0, other.1, host)
            == served(c, other.0, other.1, host),
{
}

/// Whatever the cache serves has a well-formed id, whoever wrote the entry, and points
/// at the tracker's host where one is known.
pub proof fn a_served_story_holds_together(
    c: Map<(u64, Seq<char>), StoryRef>,
    pr: u64,
    thread: Seq<char>,
    host: Option<Seq<char>>,
)
    ensures
        served(c, pr, thread, host) matches Some(s) ==> story_number(s.id_text()) is Some && (host
            matches Some(h) ==> points_at(s.id_text(), s.url_text(), h)),
{
}

/// A stored story is served to its own thread wherever it still holds together: by its id
/// alone where no tracker is known, and on the tracker's host where one is; and never where
/// it does not.
pub proof fn a_sound_story_is_served(
    c: Map<(u64, Seq<char>), StoryRef>,
    pr: u64,
    thread: Seq<char>,
    h: Seq<char>,
)
    requires
        c.contains_key((pr, thread)),
    ensures
        served(c, pr, thread, None) == if story_number(c[(pr, thread)].id_text()) is Some {
            Some(c[(pr, thread)])
        } else {
            None
        },
        served(c, pr, thread, Some(h)) == if points_at(
            c[(pr, thread)].id_text(),
            c[(pr, thread)].url_text(),
            h,
        ) {
            Some(c[(pr, thread)])
        } else {
            None
        },
{
}

/// What was written down is read back, the later of two for one thread.
pub proof fn the_later_story_counts(
    list: Seq<(u64, String, StoryRef)>,
    pr: u64,
    thread: String,
    story: StoryRef,
)
    ensures
        listed_stories(Seq::empty()) == Map::<(u64, Seq<char>), StoryRef>::empty(),
        listed_stories(list.push((pr, thread, story))) == listed_stories(list).insert(
            (pr, thread@),
            story,
        ),
{
    assert(list.push((pr, thread, story)).drop_last() =~= list);
}

} // verus!
