//! Session ids: 128-bit values, and the ways they are written down.

use vstd::prelude::*;
use crate::text::{chars_of, text_of};

verus! {

/// A session id, as the number whose bytes the UUID is.
pub type SessionId = u128;

pub open spec fn hex_digit(d: nat) -> char {
    if d < 10 {
        (48 + d) as u8 as char
    } else {
        (87 + d) as u8 as char
    }
}

/// The `n` lowest hexadecimal digits of a number, the highest of them first.
pub open spec fn hex(v: nat, n: nat) -> Seq<char>
    decreases n,
{
    if n == 0 {
        Seq::empty()
    } else {
        hex(v / 16, (n - 1) as nat).push(hex_digit(v % 16))
    }
}

/// The usual spelling of a UUID: its hexadecimal digits in groups of eight, four,
/// four, four and twelve.
pub open spec fn hyphenated(id: SessionId) -> Seq<char> {
    let h = hex(id as nat, 32);
    h.subrange(0, 8) + "-"@ + h.subrange(8, 12) + "-"@ + h.subrange(12, 16) + "-"@ + h.subrange(
        16,
        20,
    ) + "-"@ + h.subrange(20, 32)
}

pub proof fn lemma_hex_len(v: nat, n: nat)
    ensures
        hex(v, n).len() == n,
    decreases n,
{
    if n > 0 {
        lemma_hex_len(v / 16, (n - 1) as nat);
    }
}

/// `uuid::Uuid::from_u128`, written by its `Display`: the thirty-two lower-case
/// hexadecimal digits of the number, highest first, with the four hyphens.
#[verifier::external_body]
pub(crate) fn id_text(id: SessionId) -> (r: String)
    ensures
        r@ == hyphenated(id),
{
    uuid::Uuid::from_u128(id).to_string()
}

/// `uuid::Uuid::from_u128`, written by its `simple` form: the thirty-two lower-case
/// hexadecimal digits of the number, highest first.
#[verifier::external_body]
pub(crate) fn simple_text(id: SessionId) -> (r: String)
    ensures
        r@ == hex(id as nat, 32),
{
    uuid::Uuid::from_u128(id).simple().to_string()
}

/// Whether a number is a random UUID by its version and variant bits.
pub open spec fn is_random_id(id: SessionId) -> bool {
    (id as nat / 0x1000_0000_0000_0000_0000) % 16 == 4 && (id as nat / 0x4000_0000_0000_0000) % 4
        == 2
}

/// `uuid::Uuid::new_v4` as a number. Which one is chance; its version digit is 4 and
/// its variant bits are 10. It panics where the operating system has no randomness
/// to give.
#[verifier::external_body]
pub(crate) fn random_id() -> (id: SessionId)
    ensures
        is_random_id(id),
{
    uuid::Uuid::new_v4().as_u128()
}

/// A new session's id.
pub fn new_session_id() -> (id: SessionId)
    ensures
        is_random_id(id),
{
    random_id()
}

/// The eight characters a session goes by in logs and refusals.
pub open spec fn short(id: SessionId) -> Seq<char> {
    hex(id as nat, 32).take(8)
}

/// The eight characters a session goes by in logs and refusals.
pub fn short_id(id: &SessionId) -> (r: String)
    ensures
        r@ == short(*id),
{
    let full: String = id_text(*id);
    let chars: Vec<char> = chars_of(full.as_str());
    proof {
        lemma_hex_len(*id as nat, 32);
        assert(chars@.subrange(0, 8) =~= hex(*id as nat, 32).take(8));
    }
    text_of(&chars, 0, 8)
}

/// The first eight characters of the id written without hyphens.
pub fn short_simple(id: SessionId) -> (r: String)
    ensures
        r@ == short(id),
{
    let full: String = simple_text(id);
    let chars: Vec<char> = chars_of(full.as_str());
    proof {
        lemma_hex_len(id as nat, 32);
        assert(chars@.subrange(0, 8) =~= hex(id as nat, 32).take(8));
    }
    text_of(&chars, 0, 8)
}

/// The whole id, as it is handed to the agent and shown in refusals.
pub fn session_text(id: SessionId) -> (r: String)
    ensures
        r@ == hyphenated(id),
{
    id_text(id)
}

/// The short form of an id is how the long one begins.
pub proof fn short_begins_the_id(id: SessionId)
    ensures
        short(id).len() == 8,
        short(id).is_prefix_of(hyphenated(id)),
{
    lemma_hex_len(id as nat, 32);
    assert(hyphenated(id).subrange(0, 8) =~= short(id));
}

/// How many numbers `n` hexadecimal digits can tell apart.
pub open spec fn sixteens(n: nat) -> nat
    decreases n,
{
    if n == 0 {
        1
    } else {
        16 * sixteens((n - 1) as nat)
    }
}

pub proof fn lemma_hex_apart(a: nat, b: nat, n: nat)
    requires
        a < sixteens(n),
        b < sixteens(n),
        hex(a, n) == hex(b, n),
    ensures
        a == b,
    decreases n,
{
    if n > 0 {
        let m = (n - 1) as nat;
        assert(hex(a, n).last() == hex_digit(a % 16) && hex(b, n).last() == hex_digit(b % 16));
        assert(hex(a, n).drop_last() =~= hex(a / 16, m));
        assert(hex(b, n).drop_last() =~= hex(b / 16, m));
        lemma_hex_apart(a / 16, b / 16, m);
        assert(a % 16 == b % 16);
    }
}

proof fn lemma_hex_digits(v: nat, n: nat, i: int)
    requires
        0 <= i < n,
    ensures
        hex(v, n).len() == n,
        '0' <= hex(v, n)[i] <= '9' || 'a' <= hex(v, n)[i] <= 'f',
    decreases n,
{
    lemma_hex_len(v, n);
    lemma_hex_len(v / 16, (n - 1) as nat);
    if i < n - 1 {
        lemma_hex_digits(v / 16, (n - 1) as nat, i);
    }
}

/// No two ids are written alike. Each is thirty-six characters: small hexadecimal digits, with
/// a hyphen behind the eighth, the twelfth, the sixteenth and the twentieth of them.
pub proof fn every_id_is_written_its_own_way(a: SessionId, b: SessionId, i: int)
    ensures
        hyphenated(a) == hyphenated(b) ==> a == b,
        hyphenated(a).len() == 36,
        0 <= i < 36 ==> (hyphenated(a)[i] == '-' <==> i == 8 || i == 13 || i == 18 || i == 23),
        0 <= i < 36 && hyphenated(a)[i] != '-' ==> '0' <= hyphenated(a)[i] <= '9' || 'a'
            <= hyphenated(a)[i] <= 'f',
{
    reveal_strlit("-");
    let (x, y) = (hex(a as nat, 32), hex(b as nat, 32));
    lemma_hex_len(a as nat, 32);
    lemma_hex_len(b as nat, 32);
    if 0 <= i < 36 {
        let k = if i < 8 {
            i
        } else if i < 13 {
            i - 1
        } else if i < 18 {
            i - 2
        } else if i < 23 {
            i - 3
        } else {
            i - 4
        };
        if i != 8 && i != 13 && i != 18 && i != 23 {
            lemma_hex_digits(a as nat, 32, k);
            assert(hyphenated(a)[i] == x[k]);
        }
    }
    if hyphenated(a) == hyphenated(b) {
        assert forall|k: int| 0 <= k < 32 implies x[k] == y[k] by {
            let j = if k < 8 {
                k
            } else if k < 12 {
                k + 1
            } else if k < 16 {
                k + 2
            } else if k < 20 {
                k + 3
            } else {
                k + 4
            };
            assert(hyphenated(a)[j] == x[k]);
            assert(hyphenated(b)[j] == y[k]);
        }
        assert(x =~= y);
        reveal_with_fuel(sixteens, 33);
        assert(sixteens(32) == 0x1_0000_0000_0000_0000_0000_0000_0000_0000);
        lemma_hex_apart(a as nat, b as nat, 32);
    }
}

} // verus!
