//! The file tree follows the active Project: where another Project became active
//! while the tree is shown, it shows that Project's files.
use crate::commands::FileTreeChange;
use crate::session::Session;
use crate::types::ProjectId;
use vstd::prelude::*;

verus! {

/// What makes another Project active.
#[derive(Clone, Copy, Debug, PartialEq, Eq, Structural)]
pub enum Shift {
    /// A Tab was activated.
    Activated,
    /// A Pane was closed.
    Closed,
    /// A Project was removed.
    Removed,
}

impl Session {
    /// What is left for the file tree, where this Project was active before.
    /// An activation keeps the focus in the tree, and a closed Pane does not.
    /// Once a Project was removed, the tree is read again in any case.
    pub open spec fn follows(self, before: ProjectId, shift: Shift) -> FileTreeChange {
        let changed = self.workspace@.active_project != before;
        if self.workspace@.windows.len() == 0 || !self.files_visible() {
            FileTreeChange::Nothing
        } else if shift == Shift::Removed || (changed && shift == Shift::Closed) {
            FileTreeChange::Sync { focus: false }
        } else if changed {
            FileTreeChange::Sync { focus: self.view.files_focused }
        } else {
            FileTreeChange::Nothing
        }
    }

    /// Tell what is left for the file tree, where this Project was active before.
    pub fn follow_project(&self, before: ProjectId, shift: Shift) -> (change: FileTreeChange)
        ensures
            change == self.follows(before, shift),
    {
        let changed = self.workspace.active_project != before;
        if self.workspace.windows.is_empty() || !self.file_manager_visible() {
            FileTreeChange::Nothing
        } else if shift == Shift::Removed || (changed && shift == Shift::Closed) {
            FileTreeChange::Sync { focus: false }
        } else if changed {
            FileTreeChange::Sync { focus: self.view.files_focused }
        } else {
            FileTreeChange::Nothing
        }
    }
}

/// The tree is left alone as long as the same Project is active and none was
/// removed.
pub proof fn lemma_tree_stays(session: Session, shift: Shift)
    requires
        shift != Shift::Removed,
    ensures
        session.follows(session.workspace@.active_project, shift) == FileTreeChange::Nothing,
{
}

/// A tree that is shown never keeps another Project's files.
pub proof fn lemma_tree_follows(session: Session, before: ProjectId, shift: Shift)
    requires
        session.workspace@.windows.len() > 0,
        session.files_visible(),
        session.workspace@.active_project != before,
    ensures
        session.follows(before, shift) is Sync,
{
}

} // verus!
