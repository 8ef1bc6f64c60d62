//! The parts of a checkout's configuration that the rules read.

use vstd::prelude::*;
use vstd::string::*;
use crate::text::{as_deref, opt_str, opt_text};

verus! {

/// What a project says of its own checkouts, told to a conversation that is moved into
/// one.
#[derive(Debug)]
pub struct WorkspaceNotes {
    pub main: Option<String>,
    pub worktree: Option<String>,
}

impl Default for WorkspaceNotes {
    fn default() -> (r: Self)
        ensures
            r.main is None,
            r.worktree is None,
    {
        WorkspaceNotes { main: None, worktree: None }
    }
}

impl WorkspaceNotes {
    /// The note written about main, or about a worktree.
    pub open spec fn note(self, main: bool) -> Option<Seq<char>> {
        if main {
            opt_text(self.main)
        } else {
            opt_text(self.worktree)
        }
    }

    pub fn for_main(&self, main: bool) -> (r: Option<&str>)
        ensures
            opt_str(r) == self.note(main),
    {
        if main {
            as_deref(&self.main)
        } else {
            as_deref(&self.worktree)
        }
    }
}

/// A conversation is told what is written about the place it comes to: main's note in main, and
/// the worktrees' in a worktree.
pub proof fn a_note_is_about_its_own_place(notes: WorkspaceNotes)
    ensures
        notes.main is Some ==> notes.note(true) == Some(notes.main->Some_0@),
        notes.main is None ==> notes.note(true) is None,
        notes.worktree is Some ==> notes.note(false) == Some(notes.worktree->Some_0@),
        notes.worktree is None ==> notes.note(false) is None,
{
}

} // verus!
