//! What a dead agent's terminal said.

use vstd::prelude::*;
use vstd::string::*;
use vstd::utf8::{encode_utf8, valid_utf8};
use crate::text::{
    cat2, cat3, cat4, chars_of, find, first_at, first_ink, is_white, last_ink, lemma_first_at,
    opt_text, signed_decimal, signed_number, take_chars, text_of, trimming_leaves_the_text,
    without_leading, without_trailing,
};

verus! {

/// How many characters a control sequence takes from its parameters on, its final
/// character included.
pub open spec fn csi_len(s: Seq<char>) -> int
    decreases s.len(),
{
    if s.len() == 0 {
        0
    } else if '\u{40}' <= s[0] <= '\u{7e}' {
        1
    } else {
        1 + csi_len(s.skip(1))
    }
}

/// How many characters a title sequence takes from its text on, its terminator
/// included: a bell, or an escape and the backslash behind it.
pub open spec fn osc_len(s: Seq<char>) -> int
    decreases s.len(),
{
    if s.len() == 0 {
        0
    } else if s[0] == '\u{7}' {
        1
    } else if s[0] == '\u{1b}' {
        if s.len() > 1 && s[1] == '\\' {
            2
        } else {
            1
        }
    } else {
        1 + osc_len(s.skip(1))
    }
}

/// How many characters an escape sequence takes, the escape included.
pub open spec fn escape_len(s: Seq<char>) -> int {
    if s.len() == 1 {
        1
    } else if s[1] == '[' {
        2 + csi_len(s.skip(2))
    } else if s[1] == ']' {
        2 + osc_len(s.skip(2))
    } else {
        2
    }
}

pub proof fn lemma_csi_len(s: Seq<char>)
    ensures
        0 <= csi_len(s) <= s.len(),
    decreases s.len(),
{
    if s.len() > 0 {
        lemma_csi_len(s.skip(1));
    }
}

pub proof fn lemma_osc_len(s: Seq<char>)
    ensures
        0 <= osc_len(s) <= s.len(),
    decreases s.len(),
{
    if s.len() > 0 {
        lemma_osc_len(s.skip(1));
    }
}

/// A text with its terminal escapes dropped.
pub open spec fn readable(s: Seq<char>) -> Seq<char>
    decreases s.len(),
    via readable_decreases
{
    if s.len() == 0 {
        s
    } else if s[0] == '\u{1b}' {
        readable(s.skip(escape_len(s)))
    } else {
        seq![s[0]] + readable(s.skip(1))
    }
}

#[via_fn]
proof fn readable_decreases(s: Seq<char>) {
    if s.len() > 1 {
        lemma_csi_len(s.skip(2));
        lemma_osc_len(s.skip(2));
    }
}

fn csi_end(chars: &Vec<char>, from: usize) -> (r: usize)
    requires
        from <= chars@.len(),
    ensures
        from <= r <= chars@.len(),
        r - from == csi_len(chars@.skip(from as int)),
{
    let mut i: usize = from;
    while i < chars.len()
        invariant
            from <= i <= chars@.len(),
            csi_len(chars@.skip(from as int)) == i - from + csi_len(chars@.skip(i as int)),
        decreases chars@.len() - i,
    {
        let c: char = chars[i];
        proof {
            assert(chars@.skip(i as int).skip(1) =~= chars@.skip(i + 1));
        }
        i += 1;
        if '\u{40}' <= c && c <= '\u{7e}' {
            return i;
        }
    }
    i
}

fn osc_end(chars: &Vec<char>, from: usize) -> (r: usize)
    requires
        from <= chars@.len(),
    ensures
        from <= r <= chars@.len(),
        r - from == osc_len(chars@.skip(from as int)),
{
    let mut i: usize = from;
    while i < chars.len()
        invariant
            from <= i <= chars@.len(),
            osc_len(chars@.skip(from as int)) == i - from + osc_len(chars@.skip(i as int)),
        decreases chars@.len() - i,
    {
        let c: char = chars[i];
        proof {
            assert(chars@.skip(i as int).skip(1) =~= chars@.skip(i + 1));
        }
        if c == '\u{7}' {
            return i + 1;
        }
        if c == '\u{1b}' {
            if i + 1 < chars.len() && chars[i + 1] == '\\' {
                return i + 2;
            }
            return i + 1;
        }
        i += 1;
    }
    i
}

/// Drop terminal escapes, so what is left is what a person would have read.
pub fn strip_escapes(s: &str) -> (r: String)
    ensures
        r@ == readable(s@),
{
    let chars: Vec<char> = chars_of(s);
    let n: usize = chars.len();
    let mut out: String = String::new();
    let mut i: usize = 0;
    proof {
        assert(s@.skip(0) =~= s@);
        assert(out@ + readable(s@) =~= readable(s@));
    }
    while i < n
        invariant
            n == chars@.len(),
            chars@ == s@,
            i <= n,
            out@ + readable(s@.skip(i as int)) == readable(s@),
        decreases n - i,
    {
        let c: char = chars[i];
        let ghost rest = s@.skip(i as int);
        if c != '\u{1b}' {
            proof {
                assert(rest.skip(1) =~= s@.skip(i + 1));
                assert(out@ + (seq![c] + readable(s@.skip(i + 1))) =~= out@.push(c) + readable(
                    s@.skip(i + 1),
                ));
            }
            out.push(c);
            i += 1;
        } else if i + 1 == n {
            proof {
                assert(rest.skip(1) =~= s@.skip(i + 1));
            }
            i += 1;
        } else {
            let kind: char = chars[i + 1];
            proof {
                assert(rest.skip(2) =~= s@.skip(i + 2));
            }
            let next: usize = if kind == '[' {
                csi_end(&chars, i + 2)
            } else if kind == ']' {
                osc_end(&chars, i + 2)
            } else {
                i + 2
            };
            proof {
                assert(rest.skip(escape_len(rest)) =~= s@.skip(next as int));
            }
            i = next;
        }
    }
    proof {
        assert(readable(s@.skip(n as int)) =~= Seq::<char>::empty());
        assert(out@ + Seq::<char>::empty() =~= out@);
    }
    out
}

/// The first line of a text with anything but white space in it, trimmed; nothing where
/// there is none.
pub open spec fn first_line(s: Seq<char>) -> Seq<char> {
    let rest = without_leading(s);
    without_trailing(rest.take(first_at(rest, '\n')))
}

/// How much of a line is shown.
pub const LINE_MAX: usize = 200;

/// The one line of a dead agent's output worth putting in front of a person: the first
/// with anything in it, without escapes, and cut where it is too long.
pub open spec fn complaint(text: Seq<char>) -> Option<Seq<char>> {
    let line = first_line(readable(text));
    if line.len() == 0 {
        None
    } else if line.len() > LINE_MAX {
        Some(line.take(LINE_MAX as int) + "\u{2026}"@)
    } else {
        Some(line)
    }
}

/// The complaint in a text that was read from a terminal.
pub fn complaint_in(text: &str) -> (r: Option<String>)
    ensures
        opt_text(r) == complaint(text@),
{
    let clean: String = strip_escapes(text);
    let all: Vec<char> = chars_of(clean.as_str());
    let from: usize = first_ink(&all);
    let mut rest: Vec<char> = Vec::new();
    let mut i: usize = from;
    while i < all.len()
        invariant
            from <= i <= all@.len(),
            rest@ == all@.subrange(from as int, i as int),
        decreases all@.len() - i,
    {
        rest.push(all[i]);
        proof {
            assert(all@.subrange(from as int, i + 1) =~= all@.subrange(from as int, i as int).push(
                all@[i as int],
            ));
        }
        i += 1;
    }
    proof {
        assert(rest@ =~= all@.skip(from as int));
    }
    let eol: usize = find(&rest, '\n');
    let end: usize = last_ink(&rest, 0, eol);
    proof {
        assert(rest@.subrange(0, eol as int) =~= rest@.take(eol as int));
        assert(rest@.subrange(0, end as int) =~= first_line(readable(text@)));
    }
    if end == 0 {
        return None;
    }
    let line: String = text_of(&rest, 0, end);
    if end > LINE_MAX {
        let cut: String = take_chars(line.as_str(), LINE_MAX);
        Some(cat2(cut.as_str(), "\u{2026}"))
    } else {
        Some(line)
    }
}

/// Whether a terminal's output has been waited for long enough: there is some, or the
/// time is up.
pub fn drained(seen: bool, time_is_up: bool) -> (r: bool)
    ensures
        r == (seen || time_is_up),
{
    seen || time_is_up
}

/// What bytes read as where not all of them are UTF-8.
pub uninterp spec fn lossy(buf: Seq<u8>) -> Seq<char>;

/// `String::from_utf8_lossy`: the text that the bytes are the UTF-8 of, where they are
/// that of one, and a text that depends on nothing but the bytes where they are not.
#[verifier::external_body]
fn lossy_text(buf: &[u8]) -> (r: String)
    ensures
        r@ == lossy(buf@),
        valid_utf8(buf@) ==> encode_utf8(r@) == buf@,
{
    String::from_utf8_lossy(buf).into_owned()
}

/// The one line of a dead agent's output worth putting in front of a person.
pub fn agent_complaint(buf: &[u8]) -> (r: Option<String>)
    ensures
        opt_text(r) == complaint(lossy(buf@)),
{
    let text: String = lossy_text(buf);
    complaint_in(text.as_str())
}

/// What is reported of an agent that exited before its first turn: nothing where it
/// ended well or was stopped on purpose.
pub open spec fn agent_report(code: i32, deliberate: bool, said: Option<Seq<char>>) -> Option<
    Seq<char>,
> {
    if code == 0 || deliberate {
        None
    } else {
        match said {
            Some(line) => Some(
                "the agent exited at once ("@ + signed_decimal(code as int) + "): "@ + line,
            ),
            None => Some(
                "the agent exited at once ("@ + signed_decimal(code as int)
                    + ") and said nothing"@,
            ),
        }
    }
}

pub fn agent_error(code: i32, deliberate: bool, buf: &[u8]) -> (r: Option<String>)
    ensures
        opt_text(r) == agent_report(code, deliberate, complaint(lossy(buf@))),
{
    if code == 0 || deliberate {
        return None;
    }
    let n: String = signed_number(code as i64);
    match agent_complaint(buf) {
        Some(line) => Some(
            cat4("the agent exited at once (", n.as_str(), "): ", line.as_str()),
        ),
        None => Some(cat3("the agent exited at once (", n.as_str(), ") and said nothing")),
    }
}

/// No escape is left in what is shown of an agent's output.
pub proof fn nothing_readable_escapes(s: Seq<char>)
    ensures
        !readable(s).contains('\u{1b}'),
    decreases s.len(),
{
    if s.len() > 0 {
        if s[0] == '\u{1b}' {
            if s.len() > 1 {
                lemma_csi_len(s.skip(2));
                lemma_osc_len(s.skip(2));
            }
            nothing_readable_escapes(s.skip(escape_len(s)));
        } else {
            nothing_readable_escapes(s.skip(1));
            let rest = readable(s.skip(1));
            assert forall|i: int| 0 <= i < readable(s).len() implies readable(s)[i] != '\u{1b}' by {
                if i > 0 {
                    assert(readable(s)[i] == rest[i - 1]);
                    assert(rest.contains(rest[i - 1]));
                }
            }
        }
    }
}

/// What a terminal printed plainly is all kept, up to the first escape and beyond it.
pub proof fn plain_output_is_kept(plain: Seq<char>, rest: Seq<char>)
    requires
        !plain.contains('\u{1b}'),
    ensures
        readable(plain + rest) == plain + readable(rest),
        readable(plain) == plain,
    decreases plain.len(),
{
    if plain.len() > 0 {
        let tail = plain.skip(1);
        assert(plain.contains(plain[0]));
        assert(!tail.contains('\u{1b}')) by {
            if tail.contains('\u{1b}') {
                let k = choose|k: int| 0 <= k < tail.len() && tail[k] == '\u{1b}';
                assert(plain[k + 1] == '\u{1b}');
            }
        }
        plain_output_is_kept(tail, rest);
        assert((plain + rest).skip(1) =~= tail + rest);
        assert(seq![plain[0]] + (tail + readable(rest)) =~= plain + readable(rest));
        assert(seq![plain[0]] + tail =~= plain);
    } else {
        assert(plain + rest =~= rest);
        assert(plain =~= Seq::empty());
        assert(plain + readable(rest) =~= readable(rest));
    }
}

/// An escape goes whole: a control sequence with its parameters and its last character, a
/// title with its end, and any other with the character behind it. What follows is read on.
pub proof fn an_escape_goes_whole(body: Seq<char>, end: char, rest: Seq<char>)
    ensures
        (forall|i: int| 0 <= i < body.len() ==> !('@' <= #[trigger] body[i] <= '~')) && '@' <= end
            <= '~' ==> readable(seq!['\u{1b}', '['] + body + seq![end] + rest) == readable(rest),
        (forall|i: int|
            0 <= i < body.len() ==> #[trigger] body[i] != '\u{7}' && body[i] != '\u{1b}')
            ==> readable(seq!['\u{1b}', ']'] + body + seq!['\u{7}'] + rest) == readable(rest)
            && readable(seq!['\u{1b}', ']'] + body + seq!['\u{1b}', '\\'] + rest) == readable(
            rest,
        ),
        end != '[' && end != ']' ==> readable(seq!['\u{1b}', end] + rest) == readable(rest),
{
    let n = body.len() as int;
    if (forall|i: int| 0 <= i < body.len() ==> !('@' <= #[trigger] body[i] <= '~')) && '@' <= end
        <= '~' {
        let s = seq!['\u{1b}', '['] + body + seq![end] + rest;
        lemma_csi_ends(body, end, rest);
        assert(s.skip(2) =~= body + seq![end] + rest);
        assert(s.skip(n + 3) =~= rest);
    }
    if forall|i: int|
        0 <= i < body.len() ==> #[trigger] body[i] != '\u{7}' && body[i] != '\u{1b}' {
        let s = seq!['\u{1b}', ']'] + body + seq!['\u{7}'] + rest;
        lemma_osc_ends(body, rest);
        assert(s.skip(2) =~= body + seq!['\u{7}'] + rest);
        assert(s.skip(n + 3) =~= rest);
        let t = seq!['\u{1b}', ']'] + body + seq!['\u{1b}', '\\'] + rest;
        assert(t.skip(2) =~= body + seq!['\u{1b}', '\\'] + rest);
        assert(t.skip(n + 4) =~= rest);
    }
    if end != '[' && end != ']' {
        let s = seq!['\u{1b}', end] + rest;
        assert(s.skip(2) =~= rest);
    }
}

proof fn lemma_csi_ends(body: Seq<char>, end: char, rest: Seq<char>)
    requires
        forall|i: int| 0 <= i < body.len() ==> !('@' <= #[trigger] body[i] <= '~'),
        '@' <= end <= '~',
    ensures
        csi_len(body + seq![end] + rest) == body.len() + 1,
    decreases body.len(),
{
    let s = body + seq![end] + rest;
    if body.len() > 0 {
        assert(s[0] == body[0]);
        assert(s.skip(1) =~= body.skip(1) + seq![end] + rest);
        lemma_csi_ends(body.skip(1), end, rest);
    } else {
        assert(s[0] == end);
    }
}

proof fn lemma_osc_ends(body: Seq<char>, rest: Seq<char>)
    requires
        forall|i: int|
            0 <= i < body.len() ==> #[trigger] body[i] != '\u{7}' && body[i] != '\u{1b}',
    ensures
        osc_len(body + seq!['\u{7}'] + rest) == body.len() + 1,
        osc_len(body + seq!['\u{1b}', '\\'] + rest) == body.len() + 2,
    decreases body.len(),
{
    let s = body + seq!['\u{7}'] + rest;
    let t = body + seq!['\u{1b}', '\\'] + rest;
    if body.len() > 0 {
        assert(s[0] == body[0] && t[0] == body[0]);
        assert(s.skip(1) =~= body.skip(1) + seq!['\u{7}'] + rest);
        assert(t.skip(1) =~= body.skip(1) + seq!['\u{1b}', '\\'] + rest);
        lemma_osc_ends(body.skip(1), rest);
    } else {
        assert(s[0] == '\u{7}');
        assert(t[0] == '\u{1b}' && t[1] == '\\');
    }
}

/// The complaint is the first line that says anything, whole up to two hundred characters and
/// with a mark behind them where there are more; silence is no complaint.
pub proof fn the_first_line_is_the_complaint(
    text: Seq<char>,
    lead: Seq<char>,
    line: Seq<char>,
    more: Seq<char>,
)
    requires
        forall|i: int| 0 <= i < lead.len() ==> is_white(#[trigger] lead[i]),
        line.len() > 0 ==> !is_white(line[0]) && !is_white(line.last()) && !line.contains('\n'),
        line.len() == 0 ==> more.len() == 0,
        readable(text) == lead + line + more,
        more.len() > 0 ==> more[0] == '\n',
    ensures
        line.len() == 0 ==> complaint(text) is None,
        0 < line.len() <= 200 ==> complaint(text) == Some(line),
        line.len() > 200 ==> complaint(text) is Some && complaint(text)->Some_0.len() == 201
            && complaint(text)->Some_0.take(200) == line.take(200)
            && complaint(text)->Some_0.last() == '\u{2026}',
{
    reveal_strlit("\u{2026}");
    let rest = line + more;
    assert(lead + line + more =~= lead + rest);
    let n = line.len() as int;
    if n == 0 {
        assert(rest =~= Seq::empty());
        trimming_leaves_the_text(lead, rest, Seq::empty());
        assert(first_line(readable(text)).len() == 0);
    } else {
        trimming_goes(lead, rest);
        assert forall|k: int| 0 <= k < n implies rest[k] != '\n' by {
            assert(rest[k] == line[k]);
            assert(line.contains(line[k]));
        }
        if more.len() > 0 {
            assert(rest[n] == more[0]);
        }
        lemma_first_at(rest, '\n', n);
        assert(rest.take(n) =~= line);
        trimming_leaves_the_text(Seq::empty(), line, Seq::empty());
        assert(line + Seq::<char>::empty() =~= line);
        assert(first_line(readable(text)) == line);
        if n > 200 {
            assert(complaint(text)->Some_0.take(200) =~= line.take(200));
        }
    }
}

proof fn trimming_goes(lead: Seq<char>, rest: Seq<char>)
    requires
        forall|i: int| 0 <= i < lead.len() ==> is_white(#[trigger] lead[i]),
        rest.len() > 0 && !is_white(rest[0]),
    ensures
        without_leading(lead + rest) == rest,
    decreases lead.len(),
{
    if lead.len() > 0 {
        assert((lead + rest)[0] == lead[0]);
        assert((lead + rest).skip(1) =~= lead.skip(1) + rest);
        trimming_goes(lead.skip(1), rest);
    } else {
        assert(lead + rest =~= rest);
    }
}

/// An agent that failed by itself is always reported, with what it said last in the report and
/// its exit code before it; one that ended well or was stopped on purpose never is.
pub proof fn an_agent_that_failed_is_reported(code: i32, deliberate: bool, said: Option<Seq<char>>)
    ensures
        agent_report(code, deliberate, said) is Some <==> code != 0 && !deliberate,
        code != 0 && !deliberate && said is Some ==> said->Some_0.is_suffix_of(
            agent_report(code, deliberate, said)->Some_0,
        ),
        code != 0 && !deliberate ==> ("the agent exited at once ("@ + signed_decimal(
            code as int,
        )).is_prefix_of(agent_report(code, deliberate, said)->Some_0),
{
    if code != 0 && !deliberate {
        let r = agent_report(code, deliberate, said)->Some_0;
        let head = "the agent exited at once ("@ + signed_decimal(code as int);
        assert(r.subrange(0, head.len() as int) =~= head);
        if let Some(line) = said {
            assert(r.subrange(r.len() - line.len(), r.len() as int) =~= line);
        }
    }
}

} // verus!
