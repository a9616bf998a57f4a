//! Which part of the Workspace an Observatory list covers.
use vstd::prelude::*;

verus! {

/// The narrowest list that still takes the full labels.
pub const FULL_LABEL_WIDTH: usize = 17;

/// The scope of a list: the active Project, or the whole Workspace.
#[derive(Clone, Copy, Debug, PartialEq, Eq, Structural)]
pub enum SidebarScope {
    Project,
    Workspace,
}

impl SidebarScope {
    /// The other scope.
    pub open spec fn other(self) -> SidebarScope {
        match self {
            SidebarScope::Project => SidebarScope::Workspace,
            SidebarScope::Workspace => SidebarScope::Project,
        }
    }

    /// The other scope.
    pub fn toggle(self) -> (scope: SidebarScope)
        ensures
            scope == self.other(),
    {
        match self {
            SidebarScope::Project => SidebarScope::Workspace,
            SidebarScope::Workspace => SidebarScope::Project,
        }
    }

    /// The label for a list of `available` cells.
    pub fn label(self, available: usize) -> (label: &'static str)
        ensures
            label@ == (match self {
                SidebarScope::Project => if available >= FULL_LABEL_WIDTH {
                    "project"@
                } else {
                    "proj"@
                },
                SidebarScope::Workspace => if available >= FULL_LABEL_WIDTH {
                    "workspace"@
                } else {
                    "all"@
                },
            }),
    {
        match self {
            SidebarScope::Project => if available >= FULL_LABEL_WIDTH {
                "project"
            } else {
                "proj"
            },
            SidebarScope::Workspace => if available >= FULL_LABEL_WIDTH {
                "workspace"
            } else {
                "all"
            },
        }
    }

    /// The scope that a stored preference stands for.
    pub fn from_workspace_flag(workspace: bool) -> (scope: SidebarScope)
        ensures
            (scope == SidebarScope::Workspace) == workspace,
    {
        if workspace {
            SidebarScope::Workspace
        } else {
            SidebarScope::Project
        }
    }
}

/// Toggling twice gives the scope back.
pub proof fn lemma_toggle_undoes(scope: SidebarScope)
    ensures
        scope.other().other() == scope,
        scope.other() != scope,
{
}

} // verus!
