//! Moving the focus: within the active Tab, to a Pane anywhere in the
//! Workspace, or to a Tab and Pane named by their ordinals.
use crate::hierarchy::{
    known, lemma_activate, lemma_remember, remember, tabs_of, window_of, Win, Workspace,
    WorkspaceState,
};
use crate::tabs::{lemma_tabs_among, lemma_window_of_found};
use crate::types::{PaneId, ProjectId};
use vstd::prelude::*;

verus! {

/// What a focus change asks of the host.
#[derive(Clone, Copy, Debug, PartialEq, Eq, Structural)]
pub struct Focused {
    pub pane: PaneId,
    /// Another Project was selected on the way.
    pub selected_project: Option<ProjectId>,
}

impl WorkspaceState {
    /// The state after the active Tab focused one of its own Panes.
    pub open spec fn focus_here(self, pane: PaneId) -> WorkspaceState {
        let win = self.windows[self.active_window];
        if win.shows(pane) && win.active != pane {
            WorkspaceState {
                windows: self.windows.update(self.active_window, Win { active: pane, ..win }),
                last_active_pane: Some(win.active),
                ..self
            }
        } else {
            self
        }
    }

    /// The state after the focus went to `pane`, across Projects and Tabs. A
    /// zoomed Tab zooms on it.
    pub open spec fn focus_on(self, pane: PaneId) -> WorkspaceState {
        match window_of(self.windows, pane) {
            None => self,
            Some(w) => {
                let previous = self.windows[self.active_window].active;
                let shown = self.activate(w);
                let win = self.windows[w];
                WorkspaceState {
                    windows: self.windows.update(
                        w,
                        Win {
                            active: pane,
                            zoomed: if win.zoomed is Some {
                                Some(pane)
                            } else {
                                None
                            },
                            ..win
                        },
                    ),
                    last_active_pane: if previous != pane {
                        Some(previous)
                    } else {
                        self.last_active_pane
                    },
                    projects: remember(shown.projects, win.project, pane),
                    overview: None,
                    ..shown
                }
            },
        }
    }

    /// The Pane that a Tab ordinal and an optional Pane ordinal, both counted
    /// from one within `project`, stand for.
    pub open spec fn ordinal_target(
        self,
        project: ProjectId,
        tab: u32,
        pane: Option<u32>,
    ) -> Option<PaneId> {
        let tabs = tabs_of(self.windows, project);
        if tab == 0 || tab > tabs.len() {
            None
        } else {
            let win = self.windows[tabs[tab - 1] as int];
            match pane {
                None => Some(win.active),
                Some(p) => if p == 0 || p > win.layout.panes().len() {
                    None
                } else {
                    Some(win.layout.panes()[p - 1])
                },
            }
        }
    }
}

/// Changing only the focus inside a Tab keeps the invariant.
pub(crate) proof fn lemma_refocus_wf(s: WorkspaceState, w: int, win: Win)
    requires
        s.wf(),
        0 <= w < s.windows.len(),
        win.wf(),
        win.layout.panes() == s.windows[w].layout.panes(),
        win.project == s.windows[w].project,
    ensures
        (WorkspaceState { windows: s.windows.update(w, win), ..s }).wf(),
        s.all_open() ==> (WorkspaceState { windows: s.windows.update(w, win), ..s }).all_open(),
{
    let windows = s.windows.update(w, win);
    assert forall|i: int, pane: PaneId| 0 <= i < windows.len() implies #[trigger] windows[i].shows(
        pane,
    ) == s.windows[i].shows(pane) by {}
    assert forall|i: int| 0 <= i < windows.len() implies (#[trigger] windows[i]).wf() && known(
        s.projects,
        windows[i].project,
    ) by {
        assert(s.windows[i].wf());
        assert(known(s.projects, s.windows[i].project));
    }
    assert forall|i: int, j: int, pane: PaneId|
        0 <= i < windows.len() && 0 <= j < windows.len() && #[trigger] windows[i].shows(pane)
            && #[trigger] windows[j].shows(pane) implies i == j by {
        assert(s.windows[i].shows(pane) && s.windows[j].shows(pane));
    }
    if s.all_open() {
        assert forall|i: int| 0 <= i < s.projects.len() implies crate::hierarchy::has_tab(
            windows,
            (#[trigger] s.projects[i]).id,
        ) by {
            let id = s.projects[i].id;
            assert(crate::hierarchy::has_tab(s.windows, id));
            let k = choose|k: int|
                0 <= k < s.windows.len() && (#[trigger] s.windows[k]).project == id;
            assert(windows[k].project == id);
        }
    }
}

/// The focus always goes to a Pane that is shown, and the invariant holds
/// after.
pub proof fn lemma_focus_on(s: WorkspaceState, pane: PaneId)
    requires
        s.wf(),
    ensures
        s.focus_on(pane).wf(),
        s.all_open() ==> s.focus_on(pane).all_open(),
        window_of(s.windows, pane) matches Some(w) ==> s.focus_on(pane).active_window == w
            && s.focus_on(pane).windows[w].active == pane,
{
    lemma_window_of_found(s.windows, pane);
    if let Some(w) = window_of(s.windows, pane) {
        lemma_activate(s, w);
        let shown = s.activate(w);
        let win = s.windows[w];
        let new = Win {
            active: pane,
            zoomed: if win.zoomed is Some {
                Some(pane)
            } else {
                None
            },
            ..win
        };
        assert(win.wf());
        assert(new.shows(pane));
        lemma_refocus_wf(shown, w, new);
        let mid = WorkspaceState { windows: shown.windows.update(w, new), ..shown };
        lemma_remember(mid.projects, win.project, pane);
        let out = s.focus_on(pane);
        assert(out.windows == mid.windows);
        assert forall|i: int| 0 <= i < out.projects.len() implies (#[trigger] out.projects[i]).id
            == mid.projects[i].id by {}
        assert(out.wf());
    }
}

impl Workspace {
    /// Focus a Pane of the active Tab; whether the Tab shows it.
    pub fn focus_context_pane(&mut self, pane: PaneId) -> (found: bool)
        requires
            old(self)@.wf(),
        ensures
            found == old(self)@.windows[old(self)@.active_window].shows(pane),
            final(self)@ == old(self)@.focus_here(pane),
            final(self)@.wf(),
    {
        let ghost s = self@;
        let w: usize = self.active_window;
        assert(s.windows[w as int].wf());
        if !self.windows[w].layout.contains_pane(pane) {
            return false;
        }
        if self.windows[w].active != pane {
            proof {
                lemma_refocus_wf(s, w as int, Win { active: pane, ..s.windows[w as int] });
            }
            self.last_active_pane = Some(self.windows[w].active);
            self.windows[w].active = pane;
            assert(self@.windows =~= s.focus_here(pane).windows);
        }
        true
    }

    /// Focus a Pane across Project and Tab boundaries; `None` where no Tab
    /// shows it.
    pub fn focus_pane_target(&mut self, pane: PaneId) -> (focused: Option<Focused>)
        requires
            old(self)@.wf(),
        ensures
            focused is Some <==> window_of(old(self)@.windows, pane) is Some,
            final(self)@ == old(self)@.focus_on(pane),
            final(self)@.wf(),
            old(self)@.all_open() ==> final(self)@.all_open(),
            focused matches Some(f) ==> f.pane == pane && f.selected_project == ({
                let project = old(self)@.windows[window_of(
                    old(self)@.windows,
                    pane,
                )->0].project;
                if project != old(self)@.active_project {
                    Some(project)
                } else {
                    None
                }
            }),
    {
        let ghost s = self@;
        proof {
            lemma_focus_on(s, pane);
            lemma_window_of_found(s.windows, pane);
        }
        let Some(window) = self.window_of(pane) else {
            return None;
        };
        let project = self.windows[window].project;
        let selected_project = if project != self.active_project {
            Some(project)
        } else {
            None
        };
        let was_zoomed = self.windows[window].zoomed.is_some();
        let previous = self.windows[self.active_window].active;
        self.activate_window(window);
        proof {
            lemma_activate(s, window as int);
        }
        if previous != pane {
            self.last_active_pane = Some(previous);
        }
        self.windows[window].active = pane;
        if was_zoomed {
            self.windows[window].zoomed = Some(pane);
        }
        self.remember_focus(project, pane);
        self.overview = None;
        assert(self@.windows =~= s.focus_on(pane).windows);
        Some(Focused { pane, selected_project })
    }

    /// Focus a Tab and optional Pane by their ordinals, counted from one,
    /// within a Project. Omitting the Pane keeps the one the Tab remembers.
    pub fn focus_hierarchy_target(
        &mut self,
        project: ProjectId,
        tab: u32,
        pane: Option<u32>,
    ) -> (focused: Option<Focused>)
        requires
            old(self)@.wf(),
        ensures
            focused is Some <==> old(self)@.ordinal_target(project, tab, pane) is Some,
            focused is None ==> final(self)@ == old(self)@,
            focused matches Some(f) ==> old(self)@.ordinal_target(project, tab, pane) == Some(
                f.pane,
            ) && final(self)@ == old(self)@.focus_on(f.pane),
            final(self)@.wf(),
    {
        let ghost s = self@;
        proof {
            assert(self.windows.len() <= usize::MAX);
            lemma_tabs_among(s.windows, project, s.windows.len());
        }
        if tab == 0 {
            return None;
        }
        let tabs = self.project_window_indices(project);
        let tab_index: usize = (tab - 1) as usize;
        if tab_index >= tabs.len() {
            return None;
        }
        let window: usize = tabs[tab_index];
        assert(s.windows[window as int].wf());
        let target = match pane {
            Some(ordinal) => {
                if ordinal == 0 {
                    return None;
                }
                let ids = self.windows[window].layout.pane_ids();
                let pane_index: usize = (ordinal - 1) as usize;
                if pane_index >= ids.len() {
                    return None;
                }
                assert(s.windows[window as int].layout.panes().contains(ids@[pane_index as int]));
                ids[pane_index]
            },
            None => self.windows[window].active,
        };
        proof {
            assert(s.windows[window as int].shows(target));
            lemma_window_of_found(s.windows, target);
        }
        self.focus_pane_target(target)
    }
}

} // verus!
