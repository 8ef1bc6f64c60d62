//! The list of sessions, and finding one in it.

use vstd::prelude::*;
use crate::model::{Session, SessionId};

verus! {

/// Where the session with this id stands in the list, or the list's length where none
/// has it.
pub open spec fn seat(list: Seq<Session>, id: SessionId) -> int
    decreases list.len(),
{
    if list.len() == 0 || list[0].id == id {
        0
    } else {
        1 + seat(list.skip(1), id)
    }
}

/// Whether a session goes by this id.
pub open spec fn seated(list: Seq<Session>, id: SessionId) -> bool {
    seat(list, id) < list.len()
}

/// Whether the list is as it was but for the session at `i`.
pub open spec fn only_changed(before: Seq<Session>, after: Seq<Session>, i: int) -> bool {
    after.len() == before.len() && forall|j: int|
        0 <= j < before.len() && j != i ==> after[j] == before[j]
}

/// Whether no two sessions of a list go by the same id.
pub open spec fn apart(list: Seq<Session>) -> bool {
    forall|i: int, j: int| 0 <= i < j < list.len() ==> list[i].id != list[j].id
}

/// Whether a list has the same ids in the same places as before.
pub open spec fn same_ids(before: Seq<Session>, after: Seq<Session>) -> bool {
    after.len() == before.len() && forall|i: int|
        0 <= i < before.len() ==> (#[trigger] after[i]).id == before[i].id
}

/// What changes records and leaves their ids in place keeps the ids apart, and finds every
/// session where it was.
pub proof fn ids_in_place_stay_apart(before: Seq<Session>, after: Seq<Session>, id: SessionId)
    requires
        same_ids(before, after),
    ensures
        apart(before) ==> apart(after),
        seat(after, id) == seat(before, id),
{
    lemma_seat_found(before, id);
    let i = seat(before, id);
    assert forall|k: int| 0 <= k < i implies (#[trigger] after[k]).id != id by {
        assert(before[k].id != id);
    }
    lemma_seat(after, id, i);
    if apart(before) {
        assert forall|i: int, j: int| 0 <= i < j < after.len() implies after[i].id
            != after[j].id by {
            assert(before[i].id != before[j].id);
        }
    }
}

pub proof fn lemma_seat(list: Seq<Session>, id: SessionId, i: int)
    requires
        0 <= i <= list.len(),
        forall|k: int| 0 <= k < i ==> (#[trigger] list[k]).id != id,
        i < list.len() ==> list[i].id == id,
    ensures
        seat(list, id) == i,
    decreases list.len(),
{
    if i > 0 {
        let rest = list.skip(1);
        assert(list[0].id != id);
        assert forall|k: int| 0 <= k < i - 1 implies (#[trigger] rest[k]).id != id by {
            assert(list[k + 1].id != id);
        }
        lemma_seat(rest, id, i - 1);
    }
}

/// Every session before the one found goes by another id.
pub proof fn lemma_seat_found(list: Seq<Session>, id: SessionId)
    ensures
        0 <= seat(list, id) <= list.len(),
        seated(list, id) ==> list[seat(list, id)].id == id,
        forall|k: int| 0 <= k < seat(list, id) ==> (#[trigger] list[k]).id != id,
    decreases list.len(),
{
    if list.len() > 0 && list[0].id != id {
        let rest = list.skip(1);
        lemma_seat_found(rest, id);
        assert forall|k: int| 0 <= k < seat(list, id) implies (#[trigger] list[k]).id != id by {
            if k > 0 {
                assert(rest[k - 1].id != id);
            }
        }
    }
}

/// Where the session with this id stands, if one has it.
pub fn locate(list: &Vec<Session>, id: SessionId) -> (r: Option<usize>)
    ensures
        match r {
            Some(i) => i == seat(list@, id) && seated(list@, id) && list@[i as int].id == id,
            None => !seated(list@, id) && seat(list@, id) == list@.len(),
        },
{
    let mut i: usize = 0;
    while i < list.len()
        invariant
            i <= list@.len(),
            forall|k: int| 0 <= k < i ==> (#[trigger] list@[k]).id != id,
        decreases list@.len() - i,
    {
        if list[i].id == id {
            proof {
                lemma_seat(list@, id, i as int);
            }
            return Some(i);
        }
        i += 1;
    }
    proof {
        lemma_seat(list@, id, i as int);
    }
    None
}

} // verus!
