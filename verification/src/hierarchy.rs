//! The Workspace > Project > Tab > Pane hierarchy and the operations that
//! rearrange it.
//!
//! A `Workspace` is viewed as a `WorkspaceState`; each operation's contract
//! gives the state it leaves as a function of the state it found. `wf` is the
//! invariant of a running Workspace: no Pane is shown by two Tabs, every Tab
//! belongs to a known Project, the focused Pane of a Tab is one that it shows,
//! and the active Project is that of the active Tab.
use crate::layout::{
    lemma_minus, lemma_minus_distinct, lemma_panes_nonempty, lemma_with_split, LayoutNode,
};
use crate::types::{PaneId, ProjectId, SplitDir};
use vstd::prelude::*;

verus! {

/// One Tab: a layout over Panes, the focused Pane, and an optional zoomed Pane
/// that fills the Tab while it is set.
#[derive(Debug)]
pub struct Win {
    /// Owner in the Workspace > Project > Tab > Pane hierarchy.
    pub project: ProjectId,
    pub layout: LayoutNode,
    pub active: PaneId,
    pub zoomed: Option<PaneId>,
    /// User-given name, shown in the Tab bar.
    pub name: Option<String>,
}

impl Win {
    /// The Tab shows `pane`.
    pub open spec fn shows(self, pane: PaneId) -> bool {
        self.layout.panes().contains(pane)
    }

    /// The Tab shows each of its Panes once, and focuses one of them.
    pub open spec fn wf(self) -> bool {
        &&& self.layout.panes().no_duplicates()
        &&& self.shows(self.active)
        &&& self.zoomed is Some ==> self.shows(self.zoomed->0)
    }

    /// A Tab that shows `pane` alone.
    pub open spec fn single(project: ProjectId, pane: PaneId, name: Option<String>) -> Win {
        Win { project, layout: LayoutNode::Leaf(pane), active: pane, zoomed: None, name }
    }

    /// The Tab after `pane` left and `layout` remained.
    pub open spec fn reduced(self, pane: PaneId, layout: LayoutNode) -> Win {
        Win {
            active: if self.active == pane {
                layout.panes()[0]
            } else {
                self.active
            },
            zoomed: if self.zoomed == Some(pane) {
                None
            } else {
                self.zoomed
            },
            layout,
            ..self
        }
    }

    /// A Tab that shows `pane` alone.
    pub fn new_single(project: ProjectId, pane: PaneId, name: Option<String>) -> (win: Win)
        ensures
            win == Win::single(project, pane, name),
    {
        Win { project, layout: LayoutNode::Leaf(pane), active: pane, zoomed: None, name }
    }
}

/// A durable Project of the Workspace.
#[derive(Debug)]
pub struct Project {
    pub id: ProjectId,
    pub name: String,
    pub root: String,
    /// Focus memory across mutable Tab storage indices.
    pub active_pane: Option<PaneId>,
}

/// The hierarchy of one Workspace, with the view state that follows it.
#[derive(Debug)]
pub struct Workspace {
    pub windows: Vec<Win>,
    pub active_window: usize,
    pub last_active_pane: Option<PaneId>,
    pub projects: Vec<Project>,
    pub active_project: ProjectId,
    pub next_project_id: u64,
    /// Vertical origin of the Projects rail.
    pub project_scroll: usize,
    /// Horizontal origin of the active Project's Tab bar.
    pub tab_scroll: usize,
    pub tab_scroll_follow_active: bool,
    /// The selected tile while the overview is shown.
    pub overview: Option<usize>,
}

/// The abstract value of a `Workspace`.
#[verifier::ext_equal]
pub struct WorkspaceState {
    pub windows: Seq<Win>,
    pub active_window: int,
    pub last_active_pane: Option<PaneId>,
    pub projects: Seq<Project>,
    pub active_project: ProjectId,
    pub next_project_id: int,
    pub project_scroll: int,
    pub tab_scroll: int,
    pub tab_scroll_follow_active: bool,
    pub overview: Option<usize>,
}

impl View for Workspace {
    type V = WorkspaceState;

    open spec fn view(&self) -> WorkspaceState {
        WorkspaceState {
            windows: self.windows@,
            active_window: self.active_window as int,
            last_active_pane: self.last_active_pane,
            projects: self.projects@,
            active_project: self.active_project,
            next_project_id: self.next_project_id as int,
            project_scroll: self.project_scroll as int,
            tab_scroll: self.tab_scroll as int,
            tab_scroll_follow_active: self.tab_scroll_follow_active,
            overview: self.overview,
        }
    }
}

/// An index as a mathematical integer.
pub open spec fn index_of(found: Option<usize>) -> Option<int> {
    match found {
        Some(i) => Some(i as int),
        None => None,
    }
}

/// `i` is the first Tab that shows `pane`.
pub open spec fn first_showing(windows: Seq<Win>, pane: PaneId, i: int) -> bool {
    &&& 0 <= i < windows.len()
    &&& windows[i].shows(pane)
    &&& forall|j: int| 0 <= j < i ==> !(#[trigger] windows[j]).shows(pane)
}

/// The first Tab that shows `pane`.
pub open spec fn window_of(windows: Seq<Win>, pane: PaneId) -> Option<int> {
    if exists|i: int| first_showing(windows, pane, i) {
        Some(choose|i: int| first_showing(windows, pane, i))
    } else {
        None
    }
}

/// `i` is the first Project with this id.
pub open spec fn first_project(projects: Seq<Project>, id: ProjectId, i: int) -> bool {
    &&& 0 <= i < projects.len()
    &&& projects[i].id == id
    &&& forall|j: int| 0 <= j < i ==> (#[trigger] projects[j]).id != id
}

/// The position of a Project.
pub open spec fn project_at(projects: Seq<Project>, id: ProjectId) -> Option<int> {
    if exists|i: int| first_project(projects, id, i) {
        Some(choose|i: int| first_project(projects, id, i))
    } else {
        None
    }
}

/// The storage indices of the Tabs of `project` among the first `n` Tabs, in
/// Tab-bar order.
pub open spec fn tabs_among(windows: Seq<Win>, project: ProjectId, n: nat) -> Seq<usize>
    decreases n,
{
    if n == 0 {
        Seq::empty()
    } else {
        let rest = tabs_among(windows, project, (n - 1) as nat);
        if windows[n - 1].project == project {
            rest.push((n - 1) as usize)
        } else {
            rest
        }
    }
}

/// The storage indices of the Tabs of `project`, in Tab-bar order.
pub open spec fn tabs_of(windows: Seq<Win>, project: ProjectId) -> Seq<usize> {
    tabs_among(windows, project, windows.len())
}

/// The Projects with the focus memory of `id` set to `pane`.
pub open spec fn remember(projects: Seq<Project>, id: ProjectId, pane: PaneId) -> Seq<Project> {
    match project_at(projects, id) {
        Some(i) => projects.update(i, Project { active_pane: Some(pane), ..projects[i] }),
        None => projects,
    }
}

/// The Projects other than `id`.
pub open spec fn drop_project(projects: Seq<Project>, id: ProjectId) -> Seq<Project>
    decreases projects.len(),
{
    if projects.len() == 0 {
        projects
    } else {
        let rest = drop_project(projects.drop_last(), id);
        if projects.last().id == id {
            rest
        } else {
            rest.push(projects.last())
        }
    }
}

/// The Project is one of `projects`.
pub open spec fn known(projects: Seq<Project>, id: ProjectId) -> bool {
    exists|i: int| 0 <= i < projects.len() && (#[trigger] projects[i]).id == id
}

/// No Tab shows `pane`.
pub open spec fn unshown(windows: Seq<Win>, pane: PaneId) -> bool {
    forall|i: int| 0 <= i < windows.len() ==> !(#[trigger] windows[i]).shows(pane)
}

/// Every Tab is well formed, and no Pane is shown by two Tabs.
pub open spec fn panes_owned_once(windows: Seq<Win>) -> bool {
    &&& forall|i: int| 0 <= i < windows.len() ==> (#[trigger] windows[i]).wf()
    &&& forall|i: int, j: int, pane: PaneId|
        0 <= i < windows.len() && 0 <= j < windows.len() && #[trigger] windows[i].shows(pane)
            && #[trigger] windows[j].shows(pane) ==> i == j
}

/// No two Projects share an id.
pub open spec fn ids_distinct(projects: Seq<Project>) -> bool {
    forall|i: int, j: int|
        0 <= i < j < projects.len() ==> (#[trigger] projects[i]).id != (#[trigger] projects[j]).id
}

/// Some Tab belongs to the Project.
pub open spec fn has_tab(windows: Seq<Win>, id: ProjectId) -> bool {
    exists|i: int| 0 <= i < windows.len() && (#[trigger] windows[i]).project == id
}

impl WorkspaceState {
    /// The Tabs are well formed and one of them is active.
    pub open spec fn tabs_wf(self) -> bool {
        &&& 0 <= self.active_window < self.windows.len()
        &&& panes_owned_once(self.windows)
    }

    /// Every Project id is below the next one to be handed out.
    pub open spec fn ids_wf(self) -> bool {
        &&& ids_distinct(self.projects)
        &&& forall|i: int|
            0 <= i < self.projects.len() ==> (#[trigger] self.projects[i]).id.0
                < self.next_project_id
    }

    /// The invariant of a running Workspace.
    pub open spec fn wf(self) -> bool {
        &&& self.tabs_wf()
        &&& self.ids_wf()
        &&& forall|i: int|
            0 <= i < self.windows.len() ==> known(self.projects, (#[trigger] self.windows[i]).project)
        &&& self.active_project == self.windows[self.active_window].project
    }

    /// Every Project has a Tab. Only a restore that could not reopen a
    /// Project's Panes leaves one without.
    pub open spec fn all_open(self) -> bool {
        forall|i: int|
            0 <= i < self.projects.len() ==> has_tab(self.windows, (#[trigger] self.projects[i]).id)
    }

    /// The state after the Tab at `index` was made the active one.
    pub open spec fn activate(self, index: int) -> WorkspaceState {
        let left = if 0 <= self.active_window < self.windows.len() {
            let current = self.windows[self.active_window];
            remember(self.projects, current.project, current.active)
        } else {
            self.projects
        };
        if !(0 <= index < self.windows.len()) {
            WorkspaceState { projects: left, ..self }
        } else {
            let tab = self.windows[index];
            let project_changed = self.active_project != tab.project;
            let changed = self.active_window != index || project_changed;
            WorkspaceState {
                active_window: index,
                active_project: tab.project,
                tab_scroll_follow_active: changed || self.tab_scroll_follow_active,
                tab_scroll: if project_changed {
                    0
                } else {
                    self.tab_scroll
                },
                project_scroll: if project_changed {
                    match project_at(left, tab.project) {
                        Some(i) => i,
                        None => 0,
                    }
                } else {
                    self.project_scroll
                },
                projects: remember(left, tab.project, tab.active),
                ..self
            }
        }
    }
}

pub(crate) proof fn lemma_window_of(windows: Seq<Win>, pane: PaneId, i: int)
    requires
        first_showing(windows, pane, i),
    ensures
        window_of(windows, pane) == Some(i),
{
    let k = choose|k: int| first_showing(windows, pane, k);
    assert(first_showing(windows, pane, k));
    assert(k == i);
}

pub(crate) proof fn lemma_project_at(projects: Seq<Project>, id: ProjectId, i: int)
    requires
        first_project(projects, id, i),
    ensures
        project_at(projects, id) == Some(i),
{
    let k = choose|k: int| first_project(projects, id, k);
    assert(first_project(projects, id, k));
    assert(k == i);
}

/// The position of a Project, where there is one, is that of a Project with
/// the id.
pub proof fn lemma_project_at_found(projects: Seq<Project>, id: ProjectId)
    ensures
        project_at(projects, id) matches Some(i) ==> first_project(projects, id, i),
        project_at(projects, id) is None ==> !known(projects, id),
{
    if known(projects, id) {
        let i = choose|i: int| 0 <= i < projects.len() && (#[trigger] projects[i]).id == id;
        lemma_first_exists(projects, id, i);
    }
}

pub(crate) proof fn lemma_first_exists(projects: Seq<Project>, id: ProjectId, i: int)
    requires
        0 <= i < projects.len(),
        projects[i].id == id,
    ensures
        exists|k: int| first_project(projects, id, k),
    decreases i,
{
    if forall|j: int| 0 <= j < i ==> (#[trigger] projects[j]).id != id {
        assert(first_project(projects, id, i));
    } else {
        let j = choose|j: int| 0 <= j < i && (#[trigger] projects[j]).id == id;
        lemma_first_exists(projects, id, j);
    }
}

impl Workspace {
    /// The first Tab that shows `pane`.
    pub fn window_of(&self, pane: PaneId) -> (found: Option<usize>)
        ensures
            index_of(found) == window_of(self@.windows, pane),
    {
        let mut i: usize = 0;
        while i < self.windows.len()
            invariant
                i <= self.windows@.len(),
                forall|j: int| 0 <= j < i ==> !(#[trigger] self.windows@[j]).shows(pane),
            decreases self.windows@.len() - i,
        {
            if self.windows[i].layout.contains_pane(pane) {
                proof {
                    lemma_window_of(self.windows@, pane, i as int);
                }
                return Some(i);
            }
            i += 1;
        }
        assert(!exists|k: int| first_showing(self.windows@, pane, k));
        None
    }

    /// The position of a Project.
    pub fn project_position(&self, id: ProjectId) -> (found: Option<usize>)
        ensures
            index_of(found) == project_at(self@.projects, id),
    {
        let mut i: usize = 0;
        while i < self.projects.len()
            invariant
                i <= self.projects@.len(),
                forall|j: int| 0 <= j < i ==> (#[trigger] self.projects@[j]).id != id,
            decreases self.projects@.len() - i,
        {
            if self.projects[i].id == id {
                proof {
                    lemma_project_at(self.projects@, id, i as int);
                }
                return Some(i);
            }
            i += 1;
        }
        assert(!exists|k: int| first_project(self.projects@, id, k));
        None
    }

    /// The storage indices of a Project's Tabs, in Tab-bar order.
    pub fn project_window_indices(&self, project: ProjectId) -> (indices: Vec<usize>)
        ensures
            indices@ == tabs_of(self@.windows, project),
    {
        let mut indices: Vec<usize> = Vec::new();
        let mut i: usize = 0;
        while i < self.windows.len()
            invariant
                i <= self.windows@.len(),
                indices@ == tabs_among(self.windows@, project, i as nat),
            decreases self.windows@.len() - i,
        {
            if self.windows[i].project == project {
                indices.push(i);
            }
            i += 1;
        }
        indices
    }

    pub(crate) fn remember_focus(&mut self, id: ProjectId, pane: PaneId)
        ensures
            final(self)@ == (WorkspaceState {
                projects: remember(old(self)@.projects, id, pane),
                ..old(self)@
            }),
    {
        if let Some(i) = self.project_position(id) {
            self.projects[i].active_pane = Some(pane);
        }
    }

    /// Make the Tab at `index` the active one; whether that changed anything.
    pub fn activate_window(&mut self, index: usize) -> (changed: bool)
        ensures
            final(self)@ == old(self)@.activate(index as int),
            changed == (index < old(self)@.windows.len() && (old(self)@.active_window != index
                || old(self)@.active_project != old(self)@.windows[index as int].project)),
    {
        if self.active_window < self.windows.len() {
            let project = self.windows[self.active_window].project;
            let active = self.windows[self.active_window].active;
            self.remember_focus(project, active);
        }
        if index >= self.windows.len() {
            return false;
        }
        let project = self.windows[index].project;
        let active = self.windows[index].active;
        let project_changed = self.active_project != project;
        let changed = self.active_window != index || project_changed;
        self.active_window = index;
        self.active_project = project;
        if changed {
            self.tab_scroll_follow_active = true;
        }
        if project_changed {
            self.tab_scroll = 0;
            self.project_scroll = match self.project_position(project) {
                Some(i) => i,
                None => 0,
            };
        }
        self.remember_focus(project, active);
        changed
    }
}

// --- preservation of the invariant -----------------------------------------
pub(crate) proof fn lemma_reduced_wf(win: Win, pane: PaneId, layout: LayoutNode)
    requires
        win.wf(),
        win.layout.minus(pane) == Some(layout),
    ensures
        win.reduced(pane, layout).wf(),
        forall|q: PaneId| #[trigger]
            win.reduced(pane, layout).shows(q) <==> win.shows(q) && q != pane,
{
    lemma_minus(win.layout, pane);
    lemma_minus_distinct(win.layout, pane);
    lemma_panes_nonempty(layout);
    let out = win.reduced(pane, layout);
    assert(layout.panes().contains(layout.panes()[0]));
    assert forall|q: PaneId| #[trigger] out.shows(q) <==> win.shows(q) && q != pane by {
        assert(out.shows(q) == layout.panes().contains(q));
    }
    assert(win.shows(win.active));
    if win.active != pane {
        assert(out.shows(win.active));
    }
}

pub(crate) proof fn lemma_reduce_owned(windows: Seq<Win>, i: int, pane: PaneId, layout: LayoutNode)
    requires
        panes_owned_once(windows),
        0 <= i < windows.len(),
        windows[i].shows(pane),
        windows[i].layout.minus(pane) == Some(layout),
    ensures
        panes_owned_once(windows.update(i, windows[i].reduced(pane, layout))),
        unshown(windows.update(i, windows[i].reduced(pane, layout)), pane),
        forall|q: PaneId|
            q != pane ==> #[trigger] unshown(
                windows.update(i, windows[i].reduced(pane, layout)),
                q,
            ) == unshown(windows, q),
{
    let out = windows.update(i, windows[i].reduced(pane, layout));
    assert(windows[i].wf());
    lemma_reduced_wf(windows[i], pane, layout);
    assert forall|a: int, b: int, q: PaneId|
        0 <= a < out.len() && 0 <= b < out.len() && #[trigger] out[a].shows(q)
            && #[trigger] out[b].shows(q) implies a == b by {
        assert(windows[a].shows(q) && windows[b].shows(q));
    }
    assert forall|a: int| 0 <= a < out.len() implies !(#[trigger] out[a]).shows(pane) by {
        if a != i && out[a].shows(pane) {
            assert(windows[a].shows(pane));
        }
    }
    assert forall|q: PaneId| q != pane implies #[trigger] unshown(out, q) == unshown(
        windows,
        q,
    ) by {
        if unshown(out, q) {
            assert forall|a: int| 0 <= a < windows.len() implies !(#[trigger] windows[a]).shows(
                q,
            ) by {
                assert(!out[a].shows(q));
            }
        }
        if unshown(windows, q) {
            assert forall|a: int| 0 <= a < out.len() implies !(#[trigger] out[a]).shows(q) by {
                assert(!windows[a].shows(q));
            }
        }
    }
}

pub(crate) proof fn lemma_remove_owned(windows: Seq<Win>, i: int, pane: PaneId)
    requires
        panes_owned_once(windows),
        0 <= i < windows.len(),
        windows[i].shows(pane),
        windows[i].layout.minus(pane) is None,
    ensures
        panes_owned_once(windows.remove(i)),
        unshown(windows.remove(i), pane),
        forall|q: PaneId|
            q != pane ==> #[trigger] unshown(windows.remove(i), q) == unshown(windows, q),
{
    let out = windows.remove(i);
    lemma_minus(windows[i].layout, pane);
    let back = |a: int| if a < i { a } else { a + 1 };
    assert forall|a: int| 0 <= a < out.len() implies #[trigger] out[a] == windows[back(a)] by {}
    assert forall|a: int| 0 <= a < out.len() implies (#[trigger] out[a]).wf() by {
        assert(windows[back(a)].wf());
    }
    assert forall|a: int, b: int, q: PaneId|
        0 <= a < out.len() && 0 <= b < out.len() && #[trigger] out[a].shows(q)
            && #[trigger] out[b].shows(q) implies a == b by {
        assert(windows[back(a)].shows(q) && windows[back(b)].shows(q));
    }
    assert forall|a: int| 0 <= a < out.len() implies !(#[trigger] out[a]).shows(pane) by {
        if out[a].shows(pane) {
            assert(windows[back(a)].shows(pane));
        }
    }
    assert forall|q: PaneId| q != pane implies #[trigger] unshown(out, q) == unshown(
        windows,
        q,
    ) by {
        if unshown(out, q) {
            assert forall|a: int| 0 <= a < windows.len() implies !(#[trigger] windows[a]).shows(
                q,
            ) by {
                if a == i {
                } else if a < i {
                    assert(!out[a].shows(q));
                } else {
                    assert(!out[a - 1].shows(q));
                }
            }
        }
        if unshown(windows, q) {
            assert forall|a: int| 0 <= a < out.len() implies !(#[trigger] out[a]).shows(q) by {
                assert(!windows[back(a)].shows(q));
            }
        }
    }
}

pub(crate) proof fn lemma_single(project: ProjectId, pane: PaneId, name: Option<String>)
    ensures
        Win::single(project, pane, name).wf(),
        forall|q: PaneId| #[trigger] Win::single(project, pane, name).shows(q) <==> q == pane,
{
    let win = Win::single(project, pane, name);
    assert(win.layout.panes() =~= seq![pane]);
    assert(win.layout.panes()[0] == pane);
    assert(win.shows(pane));
}

pub(crate) proof fn lemma_insert_owned(windows: Seq<Win>, i: int, win: Win, pane: PaneId)
    requires
        panes_owned_once(windows),
        0 <= i <= windows.len(),
        win == Win::single(win.project, pane, win.name),
        unshown(windows, pane),
    ensures
        panes_owned_once(windows.insert(i, win)),
        forall|q: PaneId| #[trigger]
            unshown(windows.insert(i, win), q) <==> unshown(windows, q) && q != pane,
{
    let out = windows.insert(i, win);
    lemma_single(win.project, pane, win.name);
    assert forall|a: int| 0 <= a < out.len() implies (#[trigger] out[a]).wf() by {
        if a < i {
            assert(windows[a].wf());
        } else if a > i {
            assert(windows[a - 1].wf());
        }
    }
    assert forall|a: int, b: int, q: PaneId|
        0 <= a < out.len() && 0 <= b < out.len() && #[trigger] out[a].shows(q)
            && #[trigger] out[b].shows(q) implies a == b by {
        if a != i {
            let x = if a < i { a } else { a - 1 };
            assert(windows[x].shows(q));
            if b != i {
                let y = if b < i { b } else { b - 1 };
                assert(windows[y].shows(q));
            }
        } else if b != i {
            let y = if b < i { b } else { b - 1 };
            assert(windows[y].shows(q));
        }
    }
    assert forall|q: PaneId| #[trigger] unshown(out, q) <==> unshown(windows, q) && q != pane by {
        if unshown(out, q) {
            assert(!out[i].shows(q));
            assert forall|a: int| 0 <= a < windows.len() implies !(#[trigger] windows[a]).shows(
                q,
            ) by {
                if a < i {
                    assert(!out[a].shows(q));
                } else {
                    assert(!out[a + 1].shows(q));
                }
            }
        }
        if unshown(windows, q) && q != pane {
            assert forall|a: int| 0 <= a < out.len() implies !(#[trigger] out[a]).shows(q) by {
                if a < i {
                    assert(!windows[a].shows(q));
                } else if a > i {
                    assert(!windows[a - 1].shows(q));
                }
            }
        }
    }
}

/// The Tab after `pane` was put beside its focused Pane.
pub open spec fn joined(win: Win, dir: SplitDir, pane: PaneId) -> Win {
    Win { layout: win.layout.with_split(win.active, dir, pane), active: pane, zoomed: None, ..win }
}

pub(crate) proof fn lemma_join_owned(windows: Seq<Win>, i: int, dir: SplitDir, pane: PaneId)
    requires
        panes_owned_once(windows),
        0 <= i < windows.len(),
        unshown(windows, pane),
    ensures
        panes_owned_once(windows.update(i, joined(windows[i], dir, pane))),
        forall|q: PaneId| #[trigger]
            unshown(windows.update(i, joined(windows[i], dir, pane)), q) <==> unshown(windows, q)
                && q != pane,
{
    let win = windows[i];
    let new = joined(win, dir, pane);
    let out = windows.update(i, new);
    assert(win.wf());
    assert(!win.shows(pane));
    lemma_with_split(win.layout, win.active, dir, pane);
    assert forall|q: PaneId| #[trigger] new.shows(q) <==> win.shows(q) || q == pane by {
        assert(new.shows(q) == new.layout.panes().contains(q));
    }
    assert(new.shows(pane));
    assert(new.wf());
    assert forall|a: int, b: int, q: PaneId|
        0 <= a < out.len() && 0 <= b < out.len() && #[trigger] out[a].shows(q)
            && #[trigger] out[b].shows(q) implies a == b by {
        if a != i {
            assert(windows[a].shows(q));
        }
        if b != i {
            assert(windows[b].shows(q));
        }
        if q != pane {
            assert(windows[a].shows(q) && windows[b].shows(q));
        }
    }
    assert forall|q: PaneId| #[trigger] unshown(out, q) <==> unshown(windows, q) && q != pane by {
        if unshown(out, q) {
            assert(!out[i].shows(q));
            assert forall|a: int| 0 <= a < windows.len() implies !(#[trigger] windows[a]).shows(
                q,
            ) by {
                assert(!out[a].shows(q));
            }
        }
        if unshown(windows, q) && q != pane {
            assert forall|a: int| 0 <= a < out.len() implies !(#[trigger] out[a]).shows(q) by {
                assert(!windows[a].shows(q));
            }
        }
    }
}

pub(crate) proof fn lemma_remember(projects: Seq<Project>, id: ProjectId, pane: PaneId)
    ensures
        remember(projects, id, pane).len() == projects.len(),
        forall|i: int|
            0 <= i < projects.len() ==> (#[trigger] remember(projects, id, pane)[i]).id
                == projects[i].id,
        forall|p: ProjectId| #[trigger]
            known(remember(projects, id, pane), p) == known(projects, p),
        ids_distinct(projects) ==> ids_distinct(remember(projects, id, pane)),
{
    let out = remember(projects, id, pane);
    lemma_project_at_found(projects, id);
    assert forall|p: ProjectId| #[trigger] known(out, p) == known(projects, p) by {
        if known(projects, p) {
            let i = choose|i: int| 0 <= i < projects.len() && (#[trigger] projects[i]).id == p;
            assert(out[i].id == p);
        }
        if known(out, p) {
            let i = choose|i: int| 0 <= i < out.len() && (#[trigger] out[i]).id == p;
            assert(projects[i].id == p);
        }
    }
}

impl WorkspaceState {
    /// `wf` but for which Project is the active one.
    pub open spec fn owned_wf(self) -> bool {
        &&& self.tabs_wf()
        &&& self.ids_wf()
        &&& forall|i: int|
            0 <= i < self.windows.len() ==> known(self.projects, (#[trigger] self.windows[i]).project)
    }
}

/// Activating a Tab keeps the Tabs, the Projects and what they are called.
pub proof fn lemma_activate(s: WorkspaceState, index: int)
    requires
        s.owned_wf(),
        0 <= index < s.windows.len(),
    ensures
        s.activate(index).wf(),
        s.activate(index).windows == s.windows,
        s.activate(index).projects.len() == s.projects.len(),
        s.all_open() ==> s.activate(index).all_open(),
{
    let left = {
        let current = s.windows[s.active_window];
        remember(s.projects, current.project, current.active)
    };
    lemma_remember(
        s.projects,
        s.windows[s.active_window].project,
        s.windows[s.active_window].active,
    );
    lemma_remember(left, s.windows[index].project, s.windows[index].active);
    let out = s.activate(index);
    assert forall|i: int| 0 <= i < out.projects.len() implies (#[trigger] out.projects[i]).id
        == s.projects[i].id by {
        assert(out.projects[i].id == left[i].id);
        assert(left[i].id == s.projects[i].id);
    }
}

} // verus!
