//! Strings as sequences of characters: the comparisons, cuts and joins that the rest
//! of the library states its messages and its parsers over.

use vstd::prelude::*;
use vstd::string::*;
use vstd::utf8::encode_utf8;

verus! {

/// `String::push` appends one character.
pub assume_specification[ String::push ](s: &mut String, c: char)
    ensures
        final(s)@ == old(s)@.push(c),
;

/// The characters of a string, in order.
pub fn chars_of(s: &str) -> (r: Vec<char>)
    ensures
        r@ == s@,
{
    let mut out: Vec<char> = Vec::new();
    for c in it: s.chars()
        invariant
            it.seq() == s@,
            out@ == s@.take(it.index()),
    {
        out.push(c);
        proof {
            assert(s@.take(it.index() + 1) =~= s@.take(it.index()).push(s@[it.index()]));
        }
    }
    proof {
        assert(s@.take(s@.len() as int) =~= s@);
    }
    out
}

/// The string that a run of characters spells.
pub fn text_of(chars: &Vec<char>, from: usize, to: usize) -> (r: String)
    requires
        from <= to <= chars@.len(),
    ensures
        r@ == chars@.subrange(from as int, to as int),
{
    let mut out: String = String::new();
    let mut i: usize = from;
    while i < to
        invariant
            from <= i <= to <= chars@.len(),
            out@ == chars@.subrange(from as int, i as int),
        decreases to - i,
    {
        out.push(chars[i]);
        proof {
            assert(chars@.subrange(from as int, i + 1) =~= chars@.subrange(
                from as int,
                i as int,
            ).push(chars@[i as int]));
        }
        i += 1;
    }
    out
}

/// Two strings with the same characters.
pub fn same(a: &str, b: &str) -> (r: bool)
    ensures
        r == (a@ == b@),
{
    let x: Vec<char> = chars_of(a);
    let y: Vec<char> = chars_of(b);
    if x.len() != y.len() {
        return false;
    }
    matches_at(&x, 0, &y)
}

/// Whether `pat` stands in `chars` from position `at` on.
pub open spec fn stands_at(chars: Seq<char>, at: int, pat: Seq<char>) -> bool {
    0 <= at && at + pat.len() <= chars.len() && chars.subrange(at, at + pat.len()) == pat
}

pub fn matches_at(chars: &Vec<char>, at: usize, pat: &Vec<char>) -> (r: bool)
    requires
        at <= chars@.len(),
    ensures
        r == stands_at(chars@, at as int, pat@),
        at == 0 && chars@.len() == pat@.len() ==> r == (chars@ == pat@),
{
    let n: usize = chars.len();
    if n - at < pat.len() {
        return false;
    }
    proof {
        if at == 0 && chars@.len() == pat@.len() {
            assert(chars@.subrange(0, pat@.len() as int) =~= chars@);
        }
    }
    let mut i: usize = 0;
    while i < pat.len()
        invariant
            at + pat@.len() <= n == chars@.len(),
            i <= pat@.len(),
            forall|k: int| 0 <= k < i ==> chars@[at + k] == pat@[k],
        decreases pat@.len() - i,
    {
        if chars[at + i] != pat[i] {
            proof {
                assert(chars@.subrange(at as int, at + pat@.len())[i as int] != pat@[i as int]);
            }
            return false;
        }
        i += 1;
    }
    proof {
        assert(chars@.subrange(at as int, at + pat@.len()) =~= pat@);
    }
    true
}

/// Whether `pat` stands somewhere in a text.
pub open spec fn holds_text(s: Seq<char>, pat: Seq<char>) -> bool {
    exists|at: int| #[trigger] stands_at(s, at, pat)
}

pub fn contains(s: &str, pat: &str) -> (r: bool)
    ensures
        r == holds_text(s@, pat@),
{
    let x: Vec<char> = chars_of(s);
    let y: Vec<char> = chars_of(pat);
    let n: usize = x.len();
    let mut i: usize = 0;
    loop
        invariant
            x@ == s@,
            y@ == pat@,
            n == x@.len(),
            i <= n,
            forall|k: int| 0 <= k < i ==> !#[trigger] stands_at(s@, k, pat@),
        decreases n - i,
    {
        if matches_at(&x, i, &y) {
            proof {
                assert(stands_at(s@, i as int, pat@));
            }
            return true;
        }
        if i == n {
            return false;
        }
        i += 1;
    }
}

pub fn starts_with(s: &str, p: &str) -> (r: bool)
    ensures
        r == p@.is_prefix_of(s@),
{
    let x: Vec<char> = chars_of(s);
    let y: Vec<char> = chars_of(p);
    matches_at(&x, 0, &y)
}

pub fn ends_with(s: &str, p: &str) -> (r: bool)
    ensures
        r == p@.is_suffix_of(s@),
{
    let x: Vec<char> = chars_of(s);
    let y: Vec<char> = chars_of(p);
    if x.len() < y.len() {
        return false;
    }
    matches_at(&x, x.len() - y.len(), &y)
}

// ---------------------------------------------------------------------------
// Joining
// ---------------------------------------------------------------------------

pub fn cat2(a: &str, b: &str) -> (r: String)
    ensures
        r@ == a@ + b@,
{
    let mut out: String = a.to_owned();
    out.append(b);
    out
}

pub fn cat3(a: &str, b: &str, c: &str) -> (r: String)
    ensures
        r@ == a@ + b@ + c@,
{
    let mut out: String = a.to_owned();
    out.append(b);
    out.append(c);
    out
}

pub fn cat4(a: &str, b: &str, c: &str, d: &str) -> (r: String)
    ensures
        r@ == a@ + b@ + c@ + d@,
{
    let mut out: String = a.to_owned();
    out.append(b);
    out.append(c);
    out.append(d);
    out
}

pub fn cat5(a: &str, b: &str, c: &str, d: &str, e: &str) -> (r: String)
    ensures
        r@ == a@ + b@ + c@ + d@ + e@,
{
    let mut out: String = a.to_owned();
    out.append(b);
    out.append(c);
    out.append(d);
    out.append(e);
    out
}

/// The texts that a list of strings holds.
pub open spec fn texts(v: Seq<String>) -> Seq<Seq<char>> {
    v.map_values(|s: String| s@)
}

/// The text of an optional string.
pub open spec fn opt_text(o: Option<String>) -> Option<Seq<char>> {
    match o {
        Some(s) => Some(s@),
        None => None,
    }
}

/// The text of an optional string slice.
pub open spec fn opt_str(o: Option<&str>) -> Option<Seq<char>> {
    match o {
        Some(s) => Some(s@),
        None => None,
    }
}

pub fn as_deref(o: &Option<String>) -> (r: Option<&str>)
    ensures
        opt_str(r) == opt_text(*o),
{
    match o {
        Some(s) => Some(s.as_str()),
        None => None,
    }
}

/// A copy of an optional text.
pub fn copied(o: &Option<String>) -> (r: Option<String>)
    ensures
        r == *o,
{
    match o {
        Some(s) => Some(s.clone()),
        None => None,
    }
}

pub fn same_opt(a: Option<&str>, b: Option<&str>) -> (r: bool)
    ensures
        r == (opt_str(a) == opt_str(b)),
{
    match (a, b) {
        (Some(x), Some(y)) => same(x, y),
        (None, None) => true,
        _ => false,
    }
}

/// The parts in order, with `sep` between each two of them.
pub open spec fn joined(parts: Seq<Seq<char>>, sep: Seq<char>) -> Seq<char>
    decreases parts.len(),
{
    if parts.len() == 0 {
        Seq::empty()
    } else if parts.len() == 1 {
        parts[0]
    } else {
        joined(parts.drop_last(), sep) + sep + parts.last()
    }
}

/// What is joined holds every part in its place, with the separator before each but the first
/// and nowhere else.
pub proof fn joining_puts_the_separator_between(
    parts: Seq<Seq<char>>,
    x: Seq<char>,
    sep: Seq<char>,
)
    ensures
        joined(Seq::empty(), sep).len() == 0,
        joined(seq![x], sep) == x,
        parts.len() > 0 ==> joined(parts.push(x), sep) == joined(parts, sep) + sep + x,
{
    assert(parts.push(x).drop_last() =~= parts);
}

pub fn join(parts: &Vec<String>, sep: &str) -> (r: String)
    ensures
        r@ == joined(texts(parts@), sep@),
{
    let mut out: String = String::new();
    let mut i: usize = 0;
    while i < parts.len()
        invariant
            i <= parts@.len(),
            out@ == joined(texts(parts@).take(i as int), sep@),
        decreases parts@.len() - i,
    {
        proof {
            let next = texts(parts@).take(i + 1);
            assert(next.drop_last() =~= texts(parts@).take(i as int));
            assert(next.last() == parts@[i as int]@);
        }
        if i > 0 {
            out.append(sep);
        } else {
            proof {
                assert(out@ + parts@[0]@ =~= parts@[0]@);
            }
        }
        out.append(parts[i].as_str());
        i += 1;
    }
    proof {
        assert(texts(parts@).take(i as int) =~= texts(parts@));
    }
    out
}

/// A copy of a list of strings.
pub fn copies(list: &Vec<String>) -> (r: Vec<String>)
    ensures
        r@ == list@,
{
    let mut out: Vec<String> = Vec::new();
    let mut i: usize = 0;
    while i < list.len()
        invariant
            i <= list@.len(),
            out@ == list@.take(i as int),
        decreases list@.len() - i,
    {
        out.push(list[i].clone());
        proof {
            assert(list@.take(i + 1) =~= list@.take(i as int).push(list@[i as int]));
        }
        i += 1;
    }
    proof {
        assert(list@.take(i as int) =~= list@);
    }
    out
}

/// Whether `s` is one of the strings in `list`.
pub fn listed(list: &Vec<String>, s: &str) -> (r: bool)
    ensures
        r == texts(list@).contains(s@),
{
    let mut i: usize = 0;
    while i < list.len()
        invariant
            i <= list@.len(),
            forall|k: int| 0 <= k < i ==> list@[k]@ != s@,
        decreases list@.len() - i,
    {
        if same(list[i].as_str(), s) {
            proof {
                assert(texts(list@)[i as int] == s@);
            }
            return true;
        }
        i += 1;
    }
    proof {
        assert forall|k: int| 0 <= k < texts(list@).len() implies texts(list@)[k] != s@ by {
            assert(list@[k]@ != s@);
        }
    }
    false
}

/// How many bytes a text takes.
pub open spec fn byte_len(s: Seq<char>) -> usize {
    encode_utf8(s).len() as usize
}

pub fn bytes(s: &str) -> (r: usize)
    ensures
        r == byte_len(s@),
{
    s.len()
}

/// What is left of an optional text once it is trimmed, where anything is.
pub open spec fn ink(o: Option<Seq<char>>) -> Option<Seq<char>> {
    match o {
        Some(t) => if trimmed(t).len() == 0 {
            None
        } else {
            Some(trimmed(t))
        },
        None => None,
    }
}

pub fn ink_of(o: &Option<String>) -> (r: Option<String>)
    ensures
        opt_text(r) == ink(opt_text(*o)),
{
    match o {
        Some(t) => {
            let words: String = trim(t.as_str());
            if words.as_str().is_empty() {
                None
            } else {
                Some(words)
            }
        },
        None => None,
    }
}

// ---------------------------------------------------------------------------
// Numbers
// ---------------------------------------------------------------------------

pub open spec fn digit(d: nat) -> char {
    (48 + d) as u8 as char
}

/// A number in decimal, without leading zeros.
pub open spec fn decimal(n: nat) -> Seq<char>
    decreases n,
{
    if n < 10 {
        seq![digit(n)]
    } else {
        decimal(n / 10).push(digit(n % 10))
    }
}

pub fn number(n: u64) -> (r: String)
    ensures
        r@ == decimal(n as nat),
    decreases n,
{
    if n < 10 {
        let mut out: String = String::new();
        out.push((48 + n as u8) as char);
        proof {
            assert(out@ =~= seq![digit(n as nat)]);
        }
        out
    } else {
        let mut out: String = number(n / 10);
        out.push((48 + (n % 10) as u8) as char);
        out
    }
}

/// A signed number in decimal.
pub open spec fn signed_decimal(n: int) -> Seq<char> {
    if n < 0 {
        "-"@ + decimal((-n) as nat)
    } else {
        decimal(n as nat)
    }
}

pub fn signed_number(n: i64) -> (r: String)
    ensures
        r@ == signed_decimal(n as int),
{
    if n < 0 {
        let m: i128 = -(n as i128);
        let digits: String = number(m as u64);
        cat2("-", digits.as_str())
    } else {
        number(n as u64)
    }
}

/// The number that a row of decimal digits stands for.
pub open spec fn amount(s: Seq<char>) -> int
    decreases s.len(),
{
    if s.len() == 0 {
        0
    } else {
        10 * amount(s.drop_last()) + (s.last() as int - '0' as int)
    }
}

/// A number is written with the digits that stand for it, none of them a needless zero, and
/// one below zero with a minus sign before them.
pub proof fn a_number_is_written_with_its_digits(n: nat)
    ensures
        amount(decimal(n)) == n,
        decimal(n).len() > 0,
        forall|i: int| 0 <= i < decimal(n).len() ==> '0' <= #[trigger] decimal(n)[i] <= '9',
        n > 0 ==> decimal(n)[0] != '0',
        n > 0 ==> signed_decimal(-n) == seq!['-'] + decimal(n),
        signed_decimal(n as int) == decimal(n),
    decreases n,
{
    reveal_strlit("-");
    assert("-"@ =~= seq!['-']);
    if n < 10 {
        assert(decimal(n).drop_last() =~= Seq::empty());
        assert(amount(decimal(n).drop_last()) == 0);
    } else {
        let front = decimal(n / 10);
        a_number_is_written_with_its_digits(n / 10);
        assert(decimal(n).drop_last() =~= front);
        assert(decimal(n)[0] == front[0]);
        assert forall|i: int| 0 <= i < decimal(n).len() implies '0' <= #[trigger] decimal(n)[i]
            <= '9' by {
            if i < front.len() {
                assert(decimal(n)[i] == front[i]);
            }
        }
    }
}

// ---------------------------------------------------------------------------
// White space
// ---------------------------------------------------------------------------

/// The characters that Unicode calls white space.
pub open spec fn is_white(c: char) -> bool {
    let u = c as u32;
    9 <= u <= 13 || u == 0x20 || u == 0x85 || u == 0xa0 || u == 0x1680 || 0x2000 <= u <= 0x200a
        || u == 0x2028 || u == 0x2029 || u == 0x202f || u == 0x205f || u == 0x3000
}

pub fn white(c: char) -> (r: bool)
    ensures
        r == is_white(c),
{
    let u: u32 = c as u32;
    (9 <= u && u <= 13) || u == 0x20 || u == 0x85 || u == 0xa0 || u == 0x1680 || (0x2000 <= u
        && u <= 0x200a) || u == 0x2028 || u == 0x2029 || u == 0x202f || u == 0x205f || u == 0x3000
}

/// A text without the white space at its start.
pub open spec fn without_leading(s: Seq<char>) -> Seq<char>
    decreases s.len(),
{
    if s.len() > 0 && is_white(s[0]) {
        without_leading(s.skip(1))
    } else {
        s
    }
}

/// A text without the white space at its end.
pub open spec fn without_trailing(s: Seq<char>) -> Seq<char>
    decreases s.len(),
{
    if s.len() > 0 && is_white(s.last()) {
        without_trailing(s.drop_last())
    } else {
        s
    }
}

pub open spec fn trimmed(s: Seq<char>) -> Seq<char> {
    without_trailing(without_leading(s))
}

/// Trimming takes the white space around a text and nothing of the text itself.
pub proof fn trimming_leaves_the_text(lead: Seq<char>, inner: Seq<char>, trail: Seq<char>)
    requires
        forall|i: int| 0 <= i < lead.len() ==> is_white(#[trigger] lead[i]),
        forall|i: int| 0 <= i < trail.len() ==> is_white(#[trigger] trail[i]),
        inner.len() > 0 ==> !is_white(inner[0]) && !is_white(inner.last()),
    ensures
        trimmed(lead + inner + trail) == inner,
        without_trailing(inner + trail) == inner,
        without_leading(lead + inner) == inner,
{
    lemma_tail_goes(inner, trail);
    lemma_head_goes(lead, inner);
    if inner.len() > 0 {
        lemma_head_goes(lead, inner + trail);
        assert(lead + inner + trail =~= lead + (inner + trail));
    } else {
        assert(inner =~= Seq::empty());
        assert(lead + inner + trail =~= (lead + trail) + inner);
        let all = lead + trail;
        assert forall|i: int| 0 <= i < all.len() implies is_white(#[trigger] all[i]) by {
            if i < lead.len() {
                assert(all[i] == lead[i]);
            } else {
                assert(all[i] == trail[i - lead.len()]);
            }
        }
        lemma_head_goes(all, inner);
    }
}

proof fn lemma_head_goes(lead: Seq<char>, rest: Seq<char>)
    requires
        forall|i: int| 0 <= i < lead.len() ==> is_white(#[trigger] lead[i]),
        rest.len() > 0 ==> !is_white(rest[0]),
    ensures
        without_leading(lead + rest) == rest,
    decreases lead.len(),
{
    if lead.len() > 0 {
        assert((lead + rest)[0] == lead[0]);
        assert((lead + rest).skip(1) =~= lead.skip(1) + rest);
        lemma_head_goes(lead.skip(1), rest);
    } else {
        assert(lead + rest =~= rest);
    }
}

proof fn lemma_tail_goes(rest: Seq<char>, trail: Seq<char>)
    requires
        forall|i: int| 0 <= i < trail.len() ==> is_white(#[trigger] trail[i]),
        rest.len() > 0 ==> !is_white(rest.last()),
    ensures
        without_trailing(rest + trail) == rest,
    decreases trail.len(),
{
    if trail.len() > 0 {
        assert((rest + trail).last() == trail.last());
        assert((rest + trail).drop_last() =~= rest + trail.drop_last());
        lemma_tail_goes(rest, trail.drop_last());
    } else {
        assert(rest + trail =~= rest);
    }
}

/// A space, a tab and the ends of lines are white, and nothing that shows on the page of a
/// typewriter is.
pub proof fn what_shows_is_not_white(c: char)
    ensures
        is_white(' ') && is_white('\t') && is_white('\n') && is_white('\r'),
        '!' <= c <= '~' ==> !is_white(c),
{
}

/// What is left of an optional text is its own trimmed text, and nothing where it is blank or
/// there is none.
pub proof fn ink_is_what_was_written(s: Seq<char>)
    ensures
        ink(None) is None,
        ink(Some(s)) is Some <==> exists|i: int| 0 <= i < s.len() && !is_white(#[trigger] s[i]),
        ink(Some(s)) is Some ==> ink(Some(s))->Some_0 == trimmed(s),
{
    lemma_blank(s);
}

pub fn first_ink(chars: &Vec<char>) -> (i: usize)
    ensures
        i <= chars@.len(),
        chars@.skip(i as int) == without_leading(chars@),
        forall|k: int| 0 <= k < i ==> is_white(chars@[k]),
        i < chars@.len() ==> !is_white(chars@[i as int]),
{
    let mut i: usize = 0;
    proof {
        assert(chars@.skip(0) =~= chars@);
    }
    while i < chars.len() && white(chars[i])
        invariant
            i <= chars@.len(),
            forall|k: int| 0 <= k < i ==> is_white(chars@[k]),
            without_leading(chars@) == without_leading(chars@.skip(i as int)),
        decreases chars@.len() - i,
    {
        proof {
            assert(chars@.skip(i as int).skip(1) =~= chars@.skip(i + 1));
        }
        i += 1;
    }
    i
}

/// Where the text in `chars[from..to]` ends once the white space behind it is gone.
pub fn last_ink(chars: &Vec<char>, from: usize, to: usize) -> (j: usize)
    requires
        from <= to <= chars@.len(),
    ensures
        from <= j <= to,
        chars@.subrange(from as int, j as int) == without_trailing(
            chars@.subrange(from as int, to as int),
        ),
{
    let mut j: usize = to;
    while j > from && white(chars[j - 1])
        invariant
            from <= j <= to <= chars@.len(),
            without_trailing(chars@.subrange(from as int, to as int)) == without_trailing(
                chars@.subrange(from as int, j as int),
            ),
        decreases j,
    {
        proof {
            assert(chars@.subrange(from as int, j as int).drop_last() =~= chars@.subrange(
                from as int,
                j - 1,
            ));
        }
        j -= 1;
    }
    j
}

pub fn trim(s: &str) -> (r: String)
    ensures
        r@ == trimmed(s@),
{
    let chars: Vec<char> = chars_of(s);
    let from: usize = first_ink(&chars);
    let to: usize = last_ink(&chars, from, chars.len());
    proof {
        assert(chars@.subrange(from as int, chars@.len() as int) =~= chars@.skip(from as int));
    }
    text_of(&chars, from, to)
}

pub fn trim_end(s: &str) -> (r: String)
    ensures
        r@ == without_trailing(s@),
{
    let chars: Vec<char> = chars_of(s);
    let to: usize = last_ink(&chars, 0, chars.len());
    proof {
        assert(chars@.subrange(0, chars@.len() as int) =~= chars@);
    }
    text_of(&chars, 0, to)
}

/// Nothing but white space is left of a text exactly when trimming leaves nothing.
pub proof fn lemma_blank(s: Seq<char>)
    ensures
        (trimmed(s).len() == 0) == (forall|i: int| 0 <= i < s.len() ==> is_white(s[i])),
    decreases s.len(),
{
    if s.len() > 0 && is_white(s[0]) {
        lemma_blank(s.skip(1));
        assert forall|i: int| 0 <= i < s.len() implies (is_white(s[i]) == (i == 0 || is_white(
            s.skip(1)[i - 1],
        ))) by {}
        if forall|i: int| 0 <= i < s.skip(1).len() ==> is_white(s.skip(1)[i]) {
            assert forall|i: int| 0 <= i < s.len() implies is_white(s[i]) by {
                if i > 0 {
                    assert(is_white(s.skip(1)[i - 1]));
                }
            }
        } else {
            let k = choose|i: int| 0 <= i < s.skip(1).len() && !is_white(s.skip(1)[i]);
            assert(!is_white(s[k + 1]));
        }
    } else if s.len() > 0 {
        lemma_first_kept(s);
        assert(!is_white(s[0]));
    }
}

proof fn lemma_first_kept(s: Seq<char>)
    requires
        s.len() > 0,
        !is_white(s[0]),
    ensures
        without_trailing(s).len() > 0,
        without_trailing(s)[0] == s[0],
    decreases s.len(),
{
    if is_white(s.last()) {
        lemma_first_kept(s.drop_last());
    }
}

/// The first `n` characters, or all of them where there are fewer.
pub open spec fn first_chars(s: Seq<char>, n: int) -> Seq<char> {
    if s.len() <= n {
        s
    } else {
        s.take(n)
    }
}

/// The first characters of a text are how it begins: all of it where it is no longer, and
/// exactly as many as asked where it is.
pub proof fn the_first_characters_begin_a_text(s: Seq<char>, n: int)
    requires
        0 <= n,
    ensures
        first_chars(s, n).is_prefix_of(s),
        first_chars(s, n).len() == if s.len() <= n {
            s.len() as int
        } else {
            n
        },
{
}

pub fn take_chars(s: &str, n: usize) -> (r: String)
    ensures
        r@ == first_chars(s@, n as int),
{
    let chars: Vec<char> = chars_of(s);
    let to: usize = if chars.len() <= n {
        chars.len()
    } else {
        n
    };
    proof {
        assert(chars@.subrange(0, to as int) =~= first_chars(s@, n as int));
    }
    text_of(&chars, 0, to)
}

/// The longest beginning of a text that takes no more than `n` bytes.
pub open spec fn first_bytes(s: Seq<char>, n: int) -> Seq<char>
    decreases s.len(),
{
    if s.len() == 0 || byte_len(s) <= n {
        s
    } else {
        first_bytes(s.drop_last(), n)
    }
}

/// The first bytes of a text are how it begins, whole characters of it, and no longer beginning
/// would have fitted.
pub proof fn the_first_bytes_begin_a_text(s: Seq<char>, n: int, k: int)
    requires
        0 <= k <= s.len(),
    ensures
        first_bytes(s, n).is_prefix_of(s),
        first_bytes(s, n).len() == 0 || byte_len(first_bytes(s, n)) <= n,
        first_bytes(s, n).len() < k ==> byte_len(s.take(k)) > n,
    decreases s.len(),
{
    assert(s.take(s.len() as int) =~= s);
    if s.len() > 0 && byte_len(s) > n {
        let front = s.drop_last();
        if k < s.len() {
            the_first_bytes_begin_a_text(front, n, k);
            assert(front.take(k) =~= s.take(k));
        } else {
            the_first_bytes_begin_a_text(front, n, 0);
        }
        let b = first_bytes(front, n);
        assert(front.subrange(0, b.len() as int) =~= s.subrange(0, b.len() as int));
    }
}

pub fn take_bytes(s: &str, n: usize) -> (r: String)
    ensures
        r@ == first_bytes(s@, n as int),
{
    let chars: Vec<char> = chars_of(s);
    let mut k: usize = chars.len();
    proof {
        assert(s@.take(k as int) =~= s@);
    }
    while k > 0
        invariant
            chars@ == s@,
            k <= chars@.len(),
            first_bytes(s@, n as int) == first_bytes(s@.take(k as int), n as int),
        decreases k,
    {
        proof {
            assert(chars@.subrange(0, k as int) =~= s@.take(k as int));
            assert(s@.take(k as int).drop_last() =~= s@.take(k - 1));
        }
        let head: String = text_of(&chars, 0, k);
        if bytes(head.as_str()) <= n {
            return head;
        }
        k -= 1;
    }
    proof {
        assert(chars@.subrange(0, 0) =~= s@.take(0));
    }
    text_of(&chars, 0, 0)
}

// ---------------------------------------------------------------------------
// ASCII letters and digits
// ---------------------------------------------------------------------------

pub open spec fn is_letter(c: char) -> bool {
    'a' <= c <= 'z' || 'A' <= c <= 'Z'
}

pub open spec fn is_digit(c: char) -> bool {
    '0' <= c <= '9'
}

pub fn letter(c: char) -> (r: bool)
    ensures
        r == is_letter(c),
{
    ('a' <= c && c <= 'z') || ('A' <= c && c <= 'Z')
}

pub fn numeral(c: char) -> (r: bool)
    ensures
        r == is_digit(c),
{
    '0' <= c && c <= '9'
}

/// A character with an ASCII capital made small, and any other as it is.
pub open spec fn small(c: char) -> char {
    if 'A' <= c <= 'Z' {
        (c as u8 + 32) as u8 as char
    } else {
        c
    }
}

pub fn small_of(c: char) -> (r: char)
    ensures
        r == small(c),
{
    if 'A' <= c && c <= 'Z' {
        (c as u8 + 32) as char
    } else {
        c
    }
}

/// A capital becomes the small letter that it is the capital of, and everything else stays.
pub proof fn a_capital_becomes_small(c: char)
    ensures
        'A' <= c <= 'Z' ==> small(c) as int - 'a' as int == c as int - 'A' as int,
        !('A' <= c <= 'Z') ==> small(c) == c,
        small(small(c)) == small(c),
{
}

pub open spec fn lowered(s: Seq<char>) -> Seq<char> {
    s.map_values(|c: char| small(c))
}

pub fn lower_chars(chars: &Vec<char>, from: usize, to: usize) -> (r: Vec<char>)
    requires
        from <= to <= chars@.len(),
    ensures
        r@ == lowered(chars@.subrange(from as int, to as int)),
{
    let mut out: Vec<char> = Vec::new();
    let mut i: usize = from;
    while i < to
        invariant
            from <= i <= to <= chars@.len(),
            out@.len() == i - from,
            forall|k: int| 0 <= k < out@.len() ==> out@[k] == small(chars@[from + k]),
        decreases to - i,
    {
        out.push(small_of(chars[i]));
        i += 1;
    }
    proof {
        assert(out@ =~= lowered(chars@.subrange(from as int, to as int)));
    }
    out
}

pub fn lower(s: &str) -> (r: String)
    ensures
        r@ == lowered(s@),
{
    let chars: Vec<char> = chars_of(s);
    let low: Vec<char> = lower_chars(&chars, 0, chars.len());
    proof {
        assert(chars@.subrange(0, chars@.len() as int) =~= chars@);
        assert(low@.subrange(0, low@.len() as int) =~= low@);
    }
    text_of(&low, 0, low.len())
}

// ---------------------------------------------------------------------------
// Cutting
// ---------------------------------------------------------------------------

/// Where `c` first stands in a text, or its length where it does not.
pub open spec fn first_at(s: Seq<char>, c: char) -> int
    decreases s.len(),
{
    if s.len() == 0 || s[0] == c {
        0
    } else {
        1 + first_at(s.skip(1), c)
    }
}

pub proof fn lemma_first_at(s: Seq<char>, c: char, i: int)
    requires
        0 <= i <= s.len(),
        forall|k: int| 0 <= k < i ==> s[k] != c,
        i < s.len() ==> s[i] == c,
    ensures
        first_at(s, c) == i,
    decreases s.len(),
{
    if i > 0 {
        let rest = s.skip(1);
        assert forall|k: int| 0 <= k < i - 1 implies rest[k] != c by {
            assert(s[k + 1] != c);
        }
        lemma_first_at(rest, c, i - 1);
    }
}

pub fn find(chars: &Vec<char>, c: char) -> (i: usize)
    ensures
        i == first_at(chars@, c),
        i <= chars@.len(),
        forall|k: int| 0 <= k < i ==> chars@[k] != c,
        i < chars@.len() ==> chars@[i as int] == c,
{
    let mut i: usize = 0;
    while i < chars.len() && chars[i] != c
        invariant
            i <= chars@.len(),
            forall|k: int| 0 <= k < i ==> chars@[k] != c,
        decreases chars@.len() - i,
    {
        i += 1;
    }
    proof {
        lemma_first_at(chars@, c, i as int);
    }
    i
}

/// The two sides of the first `c` in a text, if there is one.
pub open spec fn cut_once(s: Seq<char>, c: char) -> Option<(Seq<char>, Seq<char>)> {
    let i = first_at(s, c);
    if i < s.len() {
        Some((s.take(i), s.skip(i + 1)))
    } else {
        None
    }
}

/// A text is cut at the first of a character into what stands on its two sides; one that does
/// not hold it is not cut.
pub proof fn a_text_is_cut_at_the_first(a: Seq<char>, c: char, b: Seq<char>)
    requires
        !a.contains(c),
    ensures
        cut_once(a + seq![c] + b, c) == Some((a, b)),
        cut_once(a, c) is None,
{
    let s = a + seq![c] + b;
    let n = a.len() as int;
    assert forall|k: int| 0 <= k < n implies s[k] != c && a[k] != c by {
        assert(s[k] == a[k]);
        assert(a.contains(a[k]));
    }
    lemma_first_at(s, c, n);
    lemma_first_at(a, c, n);
    assert(s.take(n) =~= a);
    assert(s.skip(n + 1) =~= b);
}

pub open spec fn pair_text(p: Option<(String, String)>) -> Option<(Seq<char>, Seq<char>)> {
    match p {
        Some(q) => Some((q.0@, q.1@)),
        None => None,
    }
}

pub fn split_once(s: &str, c: char) -> (r: Option<(String, String)>)
    ensures
        pair_text(r) == cut_once(s@, c),
{
    let chars: Vec<char> = chars_of(s);
    let i: usize = find(&chars, c);
    if i < chars.len() {
        proof {
            assert(s@.subrange(0, i as int) =~= s@.take(i as int));
            assert(s@.subrange(i + 1, s@.len() as int) =~= s@.skip(i + 1));
        }
        Some((text_of(&chars, 0, i), text_of(&chars, i + 1, chars.len())))
    } else {
        None
    }
}

/// Every stretch of a text equal to `pat`, taken from the left without overlap, with
/// `with` in its place.
pub open spec fn replaced(s: Seq<char>, pat: Seq<char>, with: Seq<char>) -> Seq<char>
    decreases s.len(),
{
    if pat.len() == 0 || s.len() < pat.len() {
        s
    } else if stands_at(s, 0, pat) {
        with + replaced(s.skip(pat.len() as int), pat, with)
    } else {
        seq![s[0]] + replaced(s.skip(1), pat, with)
    }
}

/// A text without the stretch is left as it is; where it starts with the stretch, that one is
/// replaced and what follows goes on by itself.
pub proof fn only_the_stretch_is_replaced(s: Seq<char>, pat: Seq<char>, with: Seq<char>)
    requires
        pat.len() > 0,
    ensures
        !holds_text(s, pat) ==> replaced(s, pat, with) == s,
        replaced(pat + s, pat, with) == with + replaced(s, pat, with),
    decreases s.len(),
{
    let whole = pat + s;
    assert(whole.subrange(0, pat.len() as int) =~= pat);
    assert(whole.skip(pat.len() as int) =~= s);
    if !holds_text(s, pat) && s.len() >= pat.len() {
        assert(!stands_at(s, 0, pat));
        let rest = s.skip(1);
        assert(!holds_text(rest, pat)) by {
            if holds_text(rest, pat) {
                let at = choose|at: int| #[trigger] stands_at(rest, at, pat);
                assert(rest.subrange(at, at + pat.len()) =~= s.subrange(
                    at + 1,
                    at + 1 + pat.len(),
                ));
                assert(stands_at(s, at + 1, pat));
            }
        }
        only_the_stretch_is_replaced(rest, pat, with);
        assert(seq![s[0]] + rest =~= s);
    }
}

pub fn replace(s: &str, pat: &str, with: &str) -> (r: String)
    requires
        pat@.len() > 0,
    ensures
        r@ == replaced(s@, pat@, with@),
{
    let chars: Vec<char> = chars_of(s);
    let p: Vec<char> = chars_of(pat);
    let n: usize = chars.len();
    let mut out: String = String::new();
    let mut i: usize = 0;
    proof {
        assert(s@.skip(0) =~= s@);
        assert(out@ + replaced(s@, pat@, with@) =~= replaced(s@, pat@, with@));
    }
    while i < n && n - i >= p.len()
        invariant
            p@ == pat@,
            pat@.len() > 0,
            chars@ == s@,
            n == s@.len(),
            i <= n,
            out@ + replaced(s@.skip(i as int), pat@, with@) == replaced(s@, pat@, with@),
        decreases n - i,
    {
        let ghost rest = s@.skip(i as int);
        proof {
            assert(rest.subrange(0, pat@.len() as int) =~= s@.subrange(
                i as int,
                i + pat@.len(),
            ));
        }
        if matches_at(&chars, i, &p) {
            proof {
                assert(rest.skip(pat@.len() as int) =~= s@.skip(i + pat@.len()));
                assert(out@ + (with@ + replaced(s@.skip(i + pat@.len()), pat@, with@)) =~= (out@
                    + with@) + replaced(s@.skip(i + pat@.len()), pat@, with@));
            }
            out.append(with);
            i += p.len();
        } else {
            proof {
                assert(rest.skip(1) =~= s@.skip(i + 1));
                assert(out@ + (seq![s@[i as int]] + replaced(s@.skip(i + 1), pat@, with@))
                    =~= out@.push(s@[i as int]) + replaced(s@.skip(i + 1), pat@, with@));
            }
            out.push(chars[i]);
            i += 1;
        }
    }
    let tail: String = text_of(&chars, i, n);
    proof {
        assert(s@.subrange(i as int, n as int) =~= s@.skip(i as int));
    }
    out.append(tail.as_str());
    out
}

// ---------------------------------------------------------------------------
// Order
// ---------------------------------------------------------------------------

/// The order of strings: by their first differing character, a prefix first.
pub open spec fn precedes(a: Seq<char>, b: Seq<char>) -> bool
    decreases a.len(),
{
    if b.len() == 0 {
        false
    } else if a.len() == 0 {
        true
    } else if a[0] != b[0] {
        a[0] < b[0]
    } else {
        precedes(a.skip(1), b.skip(1))
    }
}

/// Of two texts that begin alike the one with the smaller next character comes first, and one
/// that the other goes on from comes before it.
pub proof fn texts_are_ordered_by_their_first_difference(
    same: Seq<char>,
    x: char,
    y: char,
    a: Seq<char>,
    b: Seq<char>,
)
    ensures
        x != y ==> (precedes(same + seq![x] + a, same + seq![y] + b) <==> x < y),
        precedes(same, same + seq![x] + a),
        !precedes(same + seq![x] + a, same),
        !precedes(same, same),
    decreases same.len(),
{
    if same.len() > 0 {
        let rest = same.skip(1);
        texts_are_ordered_by_their_first_difference(rest, x, y, a, b);
        assert((same + seq![x] + a).skip(1) =~= rest + seq![x] + a);
        assert((same + seq![y] + b).skip(1) =~= rest + seq![y] + b);
    }
}

pub fn before(a: &str, b: &str) -> (r: bool)
    ensures
        r == precedes(a@, b@),
{
    let x: Vec<char> = chars_of(a);
    let y: Vec<char> = chars_of(b);
    let mut i: usize = 0;
    proof {
        assert(x@.skip(0) =~= x@);
        assert(y@.skip(0) =~= y@);
    }
    while i < x.len() && i < y.len() && x[i] == y[i]
        invariant
            x@ == a@,
            y@ == b@,
            i <= x@.len(),
            i <= y@.len(),
            precedes(a@, b@) == precedes(x@.skip(i as int), y@.skip(i as int)),
        decreases x@.len() - i,
    {
        proof {
            assert(x@.skip(i as int).skip(1) =~= x@.skip(i + 1));
            assert(y@.skip(i as int).skip(1) =~= y@.skip(i + 1));
        }
        i += 1;
    }
    if i == y.len() {
        false
    } else if i == x.len() {
        true
    } else {
        x[i] < y[i]
    }
}

/// A list with `x` put in before the first entry that it precedes.
pub open spec fn placed(list: Seq<Seq<char>>, x: Seq<char>) -> Seq<Seq<char>>
    decreases list.len(),
{
    if list.len() == 0 || !precedes(x, list.last()) {
        list.push(x)
    } else {
        placed(list.drop_last(), x).push(list.last())
    }
}

/// A list in order.
pub open spec fn sorted(list: Seq<Seq<char>>) -> Seq<Seq<char>>
    decreases list.len(),
{
    if list.len() == 0 {
        list
    } else {
        placed(sorted(list.drop_last()), list.last())
    }
}

/// Whether every entry stands behind none that follows it.
pub open spec fn is_sorted(list: Seq<Seq<char>>) -> bool {
    forall|i: int, j: int|
        0 <= i < j < list.len() ==> !precedes(#[trigger] list[j], #[trigger] list[i])
}

proof fn lemma_not_both(a: Seq<char>, b: Seq<char>)
    requires
        precedes(a, b),
    ensures
        !precedes(b, a),
    decreases a.len(),
{
    if a.len() > 0 && b.len() > 0 && a[0] == b[0] {
        lemma_not_both(a.skip(1), b.skip(1));
    }
}

proof fn lemma_in_line(a: Seq<char>, b: Seq<char>, c: Seq<char>)
    requires
        !precedes(b, a),
        !precedes(c, b),
    ensures
        !precedes(c, a),
    decreases a.len(),
{
    if a.len() > 0 && b.len() > 0 && c.len() > 0 && a[0] == b[0] && b[0] == c[0] {
        lemma_in_line(a.skip(1), b.skip(1), c.skip(1));
    }
}

proof fn lemma_placed(list: Seq<Seq<char>>, x: Seq<char>)
    ensures
        placed(list, x).to_multiset() == list.to_multiset().insert(x),
        placed(list, x).len() == list.len() + 1,
        forall|i: int|
            0 <= i < placed(list, x).len() ==> #[trigger] placed(list, x)[i] == x || list.contains(
                placed(list, x)[i],
            ),
        is_sorted(list) ==> is_sorted(placed(list, x)),
    decreases list.len(),
{
    broadcast use vstd::seq_lib::group_to_multiset_ensures;

    if list.len() == 0 || !precedes(x, list.last()) {
        let out = list.push(x);
        assert forall|i: int| 0 <= i < out.len() implies out[i] == x || list.contains(out[i]) by {
            if i < list.len() {
                assert(list[i] == out[i]);
            }
        }
        if is_sorted(list) {
            assert forall|i: int, j: int| 0 <= i < j < out.len() implies !precedes(
                #[trigger] out[j],
                #[trigger] out[i],
            ) by {
                if j == list.len() {
                    if i < list.len() - 1 {
                        assert(!precedes(list[list.len() - 1], list[i]));
                        lemma_in_line(list[i], list.last(), x);
                    }
                } else {
                    assert(!precedes(list[j], list[i]));
                }
            }
        }
    } else {
        let front = list.drop_last();
        let top = list.last();
        let mid = placed(front, x);
        lemma_placed(front, x);
        lemma_not_both(x, top);
        assert(list =~= front.push(top));
        let out = mid.push(top);
        assert(list.to_multiset() =~= front.to_multiset().insert(top));
        assert(out.to_multiset() =~= list.to_multiset().insert(x));
        assert forall|i: int| 0 <= i < out.len() implies out[i] == x || list.contains(out[i]) by {
            if i < mid.len() {
                assert(out[i] == mid[i]);
                if mid[i] != x {
                    let k = choose|k: int| 0 <= k < front.len() && front[k] == mid[i];
                    assert(list[k] == out[i]);
                }
            } else {
                assert(list[list.len() - 1] == out[i]);
            }
        }
        if is_sorted(list) {
            assert(is_sorted(front)) by {
                assert forall|i: int, j: int| 0 <= i < j < front.len() implies !precedes(
                    #[trigger] front[j],
                    #[trigger] front[i],
                ) by {
                    assert(!precedes(list[j], list[i]));
                }
            }
            assert forall|i: int, j: int| 0 <= i < j < out.len() implies !precedes(
                #[trigger] out[j],
                #[trigger] out[i],
            ) by {
                if j == mid.len() {
                    assert(mid[i] == out[i]);
                    if mid[i] != x {
                        let k = choose|k: int| 0 <= k < front.len() && front[k] == mid[i];
                        assert(!precedes(list[list.len() - 1], list[k]));
                    }
                } else {
                    assert(!precedes(mid[j], mid[i]));
                }
            }
        }
    }
}

/// Sorting keeps every entry, as often as it was there, and puts them in order.
pub proof fn sorting_only_orders(list: Seq<Seq<char>>)
    ensures
        is_sorted(sorted(list)),
        sorted(list).to_multiset() == list.to_multiset(),
    decreases list.len(),
{
    broadcast use vstd::seq_lib::group_to_multiset_ensures;

    if list.len() > 0 {
        let front = list.drop_last();
        sorting_only_orders(front);
        lemma_placed(sorted(front), list.last());
        assert(list =~= front.push(list.last()));
    }
}

fn place(list: &mut Vec<String>, x: String)
    ensures
        texts(final(list)@) == placed(texts(old(list)@), x@),
    decreases old(list)@.len(),
{
    let n: usize = list.len();
    if n == 0 || !before(x.as_str(), list[n - 1].as_str()) {
        list.push(x);
        proof {
            assert(texts(list@) =~= texts(old(list)@).push(x@));
        }
    } else {
        let top: Option<String> = list.pop();
        proof {
            assert(texts(list@) =~= texts(old(list)@).drop_last());
        }
        match top {
            Some(last) => {
                place(list, x);
                let ghost mid = list@;
                list.push(last);
                proof {
                    assert(texts(list@) =~= texts(mid).push(last@));
                }
            },
            None => {},
        }
    }
}

pub fn sort(list: &Vec<String>) -> (r: Vec<String>)
    ensures
        texts(r@) == sorted(texts(list@)),
{
    let mut out: Vec<String> = Vec::new();
    let mut i: usize = 0;
    proof {
        assert(texts(out@) =~= texts(list@).take(0));
    }
    while i < list.len()
        invariant
            i <= list@.len(),
            texts(out@) == sorted(texts(list@).take(i as int)),
        decreases list@.len() - i,
    {
        proof {
            let next = texts(list@).take(i + 1);
            assert(next.drop_last() =~= texts(list@).take(i as int));
            assert(next.last() == list@[i as int]@);
        }
        place(&mut out, list[i].clone());
        i += 1;
    }
    proof {
        assert(texts(list@).take(i as int) =~= texts(list@));
    }
    out
}

} // verus!
