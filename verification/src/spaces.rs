//! The list of workspaces, and finding one in it.

use vstd::prelude::*;
use crate::model::{Process, Workspace};
use crate::text::same;

verus! {

/// The first workspace of this name.
pub open spec fn home(spaces: Seq<Workspace>, name: Seq<char>) -> Option<Workspace>
    decreases spaces.len(),
{
    if spaces.len() == 0 {
        None
    } else if spaces[0].id@ == name {
        Some(spaces[0])
    } else {
        home(spaces.skip(1), name)
    }
}

/// The processes of the workspace of this name: none where there is no such workspace.
pub open spec fn processes_in(spaces: Seq<Workspace>, name: Seq<char>) -> Seq<Process> {
    match home(spaces, name) {
        Some(w) => w.processes@,
        None => Seq::empty(),
    }
}

/// The first workspace of this name.
pub fn find_home<'a>(spaces: &'a Vec<Workspace>, name: &str) -> (r: Option<&'a Workspace>)
    ensures
        home(spaces@, name@) == match r {
            Some(w) => Some(*w),
            None => None,
        },
{
    let mut i: usize = 0;
    proof {
        assert(spaces@.skip(0) =~= spaces@);
    }
    while i < spaces.len()
        invariant
            i <= spaces@.len(),
            home(spaces@, name@) == home(spaces@.skip(i as int), name@),
        decreases spaces@.len() - i,
    {
        if same(spaces[i].id.as_str(), name) {
            return Some(&spaces[i]);
        }
        proof {
            assert(spaces@.skip(i as int).skip(1) =~= spaces@.skip(i + 1));
        }
        i += 1;
    }
    None
}

/// A workspace is found by its name, the first one where two share it, and one that is not
/// found is not there.
pub proof fn a_workspace_is_found_by_its_name(spaces: Seq<Workspace>, name: Seq<char>, i: int)
    ensures
        home(spaces, name) matches Some(w) ==> w.id@ == name && spaces.contains(w),
        0 <= i < spaces.len() && spaces[i].id@ == name ==> home(spaces, name) is Some,
        0 <= i < spaces.len() && spaces[i].id@ == name && (forall|k: int|
            0 <= k < i ==> (#[trigger] spaces[k]).id@ != name) ==> home(spaces, name) == Some(
            spaces[i],
        ),
    decreases spaces.len(),
{
    if spaces.len() > 0 {
        let rest = spaces.skip(1);
        assert(spaces.contains(spaces[0]));
        if spaces[0].id@ != name {
            a_workspace_is_found_by_its_name(rest, name, i - 1);
            if let Some(w) = home(rest, name) {
                let k = choose|k: int| 0 <= k < rest.len() && rest[k] == w;
                assert(spaces[k + 1] == w);
            }
            if 0 <= i < spaces.len() && spaces[i].id@ == name {
                assert(rest[i - 1] == spaces[i]);
                if forall|k: int| 0 <= k < i ==> (#[trigger] spaces[k]).id@ != name {
                    assert forall|k: int| 0 <= k < i - 1 implies (#[trigger] rest[k]).id@
                        != name by {
                        assert(spaces[k + 1].id@ != name);
                    }
                }
            }
        } else if 0 < i < spaces.len() {
            assert(spaces[0].id@ == name);
        }
    }
}

} // verus!
