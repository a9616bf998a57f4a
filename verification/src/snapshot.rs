//! Saving the hierarchy, and what bringing it back gives.
use crate::hierarchy::{
    has_tab, known, lemma_project_at, lemma_project_at_found, lemma_window_of, panes_owned_once,
    project_at, tabs_of, Project, Win, Workspace, WorkspaceState,
};
use crate::layout::{lemma_panes_nonempty, shape, LayoutNode};
use crate::restore::{
    definition_covers, defines, id_ceiling, layouts_disjoint, live_layout, open_projects, position_in,
    position_showing, pruned, remembered_position, restored_focus,
    restored_projects, restored_state, restored_windows, revived, revived_tabs, snapshot_state,
    ProjectDefinition, RestoredTab, Snapshot, WorkspaceDefinition,
};
use crate::tabs::lemma_tabs_among;
use crate::types::PaneId;
use vstd::prelude::*;

verus! {

fn duplicate_win(win: &Win) -> (out: Win)
    ensures
        out == *win,
{
    let name = match &win.name {
        Some(text) => Some(text.clone()),
        None => None,
    };
    Win {
        project: win.project,
        layout: win.layout.copy(),
        active: win.active,
        zoomed: win.zoomed,
        name,
    }
}

/// A Project as it is saved: the active one remembers the Pane that has the
/// focus now.
pub open spec fn saved_project(s: WorkspaceState, p: Project) -> Project {
    if p.id == s.active_project {
        Project { active_pane: Some(s.windows[s.active_window].active), ..p }
    } else {
        p
    }
}

/// The Projects as they are saved.
pub open spec fn saved_projects(s: WorkspaceState) -> Seq<Project> {
    Seq::new(s.projects.len(), |i: int| saved_project(s, s.projects[i]))
}

impl Workspace {
    /// The hierarchy to save: every Tab with its layout, focus, zoom and name,
    /// and every Project with the Pane it remembers.
    pub fn snapshot(&self) -> (out: Snapshot)
        requires
            self@.tabs_wf(),
        ensures
            out.windows@ == self@.windows,
            out.active_window == self@.active_window,
            out.projects@ == saved_projects(self@),
            out.next_project_id == self@.next_project_id,
    {
        let mut windows: Vec<Win> = Vec::new();
        let mut i: usize = 0;
        while i < self.windows.len()
            invariant
                i <= self.windows@.len(),
                windows@ == self@.windows.take(i as int),
            decreases self.windows@.len() - i,
        {
            windows.push(duplicate_win(&self.windows[i]));
            i += 1;
            assert(windows@ =~= self@.windows.take(i as int));
        }
        assert(self@.windows.take(i as int) =~= self@.windows);
        let focus = self.windows[self.active_window].active;
        let mut projects: Vec<Project> = Vec::new();
        let mut k: usize = 0;
        while k < self.projects.len()
            invariant
                k <= self.projects@.len(),
                self@.tabs_wf(),
                focus == self@.windows[self@.active_window].active,
                projects@ == saved_projects(self@).take(k as int),
            decreases self.projects@.len() - k,
        {
            let p = &self.projects[k];
            let active_pane = if p.id == self.active_project {
                Some(focus)
            } else {
                p.active_pane
            };
            projects.push(
                Project { id: p.id, name: p.name.clone(), root: p.root.clone(), active_pane },
            );
            k += 1;
            assert(projects@ =~= saved_projects(self@).take(k as int));
        }
        assert(saved_projects(self@).take(k as int) =~= saved_projects(self@));
        Snapshot {
            windows,
            active_window: self.active_window,
            projects,
            next_project_id: self.next_project_id,
        }
    }
}

/// Every Pane that is shown is live.
pub open spec fn all_live(windows: Seq<Win>, live: Seq<PaneId>) -> bool {
    forall|i: int, q: PaneId|
        0 <= i < windows.len() && #[trigger] windows[i].shows(q) ==> live.contains(q)
}

proof fn lemma_pruned_whole(layout: LayoutNode, ids: Seq<PaneId>, live: Seq<PaneId>)
    requires
        forall|k: int| 0 <= k < ids.len() ==> live.contains(#[trigger] ids[k]),
    ensures
        pruned(Some(layout), ids, live) == Some(layout),
    decreases ids.len(),
{
    if ids.len() > 0 {
        assert(live.contains(ids[ids.len() - 1]));
        assert forall|k: int| 0 <= k < ids.drop_last().len() implies live.contains(
            #[trigger] ids.drop_last()[k],
        ) by {
            assert(ids.drop_last()[k] == ids[k]);
        }
        lemma_pruned_whole(layout, ids.drop_last(), live);
    }
}

proof fn lemma_revived_whole(win: Win, live: Seq<PaneId>)
    requires
        win.wf(),
        forall|q: PaneId| #[trigger] win.shows(q) ==> live.contains(q),
    ensures
        revived(win, live) == Some(win),
{
    let ids = win.layout.panes();
    assert forall|k: int| 0 <= k < ids.len() implies live.contains(#[trigger] ids[k]) by {
        assert(win.shows(ids[k]));
    }
    lemma_pruned_whole(win.layout, ids, live);
    assert(live_layout(win.layout, live) == Some(win.layout));
    if let Some(pane) = win.zoomed {
        assert(win.shows(pane));
    }
}

proof fn lemma_revived_all(windows: Seq<Win>, live: Seq<PaneId>, n: nat)
    requires
        n <= windows.len(),
        panes_owned_once(windows),
        all_live(windows, live),
    ensures
        revived_tabs(windows, live, n) == windows.take(n as int),
    decreases n,
{
    if n == 0 {
        assert(windows.take(0) =~= Seq::empty());
    } else {
        lemma_revived_all(windows, live, (n - 1) as nat);
        assert(windows[n - 1].wf());
        lemma_revived_whole(windows[n - 1], live);
        assert(windows.take(n as int) =~= windows.take(n - 1).push(windows[n - 1]));
    }
}

proof fn lemma_ceiling_kept(projects: Seq<Project>, floor: int, n: nat)
    requires
        n <= projects.len(),
        forall|i: int| 0 <= i < projects.len() ==> (#[trigger] projects[i]).id.0 < floor,
    ensures
        id_ceiling(projects, floor, n) == floor,
    decreases n,
{
    if n > 0 {
        lemma_ceiling_kept(projects, floor, (n - 1) as nat);
        assert(projects[n - 1].id.0 < floor);
    }
}

/// Restoring a saved hierarchy while all its Panes could be brought back gives
/// the same Tabs with the same layouts, focus, zoom and names, the same
/// Projects, the same active Tab, and the same next Project id.
pub proof fn lemma_snapshot_round_trip(
    s: WorkspaceState,
    t: WorkspaceState,
    live: Seq<PaneId>,
    fallback: Option<PaneId>,
)
    requires
        s.wf(),
        all_live(s.windows, live),
    ensures
        ({
            let back = snapshot_state(
                t,
                s.windows,
                s.active_window,
                saved_projects(s),
                s.next_project_id,
                live,
                fallback,
            );
            &&& back.windows == s.windows
            &&& back.active_window == s.active_window
            &&& back.active_project == s.active_project
            &&& back.projects == saved_projects(s)
            &&& back.next_project_id == s.next_project_id
        }),
{
    lemma_revived_all(s.windows, live, s.windows.len());
    assert(s.windows.take(s.windows.len() as int) =~= s.windows);
    let projects = saved_projects(s);
    assert forall|i: int| 0 <= i < projects.len() implies (#[trigger] projects[i]).id.0
        < s.next_project_id by {
        assert(s.projects[i].id.0 < s.next_project_id);
    }
    assert(known(s.projects, s.windows[0].project));
    lemma_ceiling_kept(projects, s.next_project_id, projects.len());
}

/// Every remembered Tab was reopened: in order, with its name and its shape.
pub open spec fn reopened(definitions: Seq<ProjectDefinition>, tabs: Seq<RestoredTab>) -> bool {
    forall|i: int|
        0 <= i < definitions.len() ==> reopened_project(#[trigger] definitions[i], tabs)
}

/// Every Tab of a remembered Project was reopened.
pub open spec fn reopened_project(d: ProjectDefinition, tabs: Seq<RestoredTab>) -> bool {
    let mine = tabs_of(restored_windows(tabs), d.id);
    &&& mine.len() == d.tabs@.len()
    &&& forall|j: int|
        0 <= j < mine.len() ==> tabs[#[trigger] mine[j] as int].name == d.tabs@[j].name && shape(
            tabs[mine[j] as int].layout,
        ) == d.tabs@[j].layout
}

/// The definition describes the whole of a Workspace.
pub open spec fn describes(definition: WorkspaceDefinition, s: WorkspaceState) -> bool {
    &&& definition.active_project == s.active_project
    &&& definition.projects@.len() == s.projects.len()
    &&& forall|i: int|
        0 <= i < s.projects.len() ==> defines(
            #[trigger] definition.projects@[i],
            s,
            s.projects[i],
        )
}

proof fn lemma_position_in(tabs: Seq<usize>, index: int, k: int)
    requires
        0 <= k,
    ensures
        position_in(tabs, index, k) matches Some(j) ==> k <= j < tabs.len() && tabs[j] == index,
    decreases tabs.len() - k,
{
    if k < tabs.len() && tabs[k] != index {
        lemma_position_in(tabs, index, k + 1);
    }
}

proof fn lemma_position_showing(windows: Seq<Win>, tabs: Seq<usize>, pane: PaneId, k: int)
    requires
        0 <= k,
    ensures
        position_showing(windows, tabs, pane, k) matches Some(j) ==> k <= j < tabs.len(),
    decreases tabs.len() - k,
{
    if k < tabs.len() && !windows[tabs[k] as int].shows(pane) {
        lemma_position_showing(windows, tabs, pane, k + 1);
    }
}

proof fn lemma_position_in_at(tabs: Seq<usize>, j: int, k: int)
    requires
        0 <= k <= j < tabs.len(),
        forall|a: int, b: int| 0 <= a < b < tabs.len() ==> #[trigger] tabs[a] < #[trigger] tabs[b],
    ensures
        position_in(tabs, tabs[j] as int, k) == Some(j),
    decreases j - k,
{
    if k < j {
        assert(tabs[k] < tabs[j]);
        lemma_position_in_at(tabs, j, k + 1);
    }
}

proof fn lemma_position_showing_at(windows: Seq<Win>, tabs: Seq<usize>, pane: PaneId, j: int, k: int)
    requires
        0 <= k <= j < tabs.len(),
        windows[tabs[j] as int].shows(pane),
        forall|a: int|
            0 <= a < tabs.len() && a != j ==> !windows[#[trigger] tabs[a] as int].shows(pane),
    ensures
        position_showing(windows, tabs, pane, k) == Some(j),
    decreases j - k,
{
    if k < j {
        assert(!windows[tabs[k] as int].shows(pane));
        lemma_position_showing_at(windows, tabs, pane, j, k + 1);
    }
}

/// The Tab position that is remembered for a Project is one of its Tabs.
proof fn lemma_remembered_position(s: WorkspaceState, p: Project)
    requires
        tabs_of(s.windows, p.id).len() > 0,
    ensures
        0 <= remembered_position(s, p) < tabs_of(s.windows, p.id).len(),
{
    let tabs = tabs_of(s.windows, p.id);
    lemma_position_in(tabs, s.active_window, 0);
    if let Some(pane) = p.active_pane {
        lemma_position_showing(s.windows, tabs, pane, 0);
    }
}

proof fn lemma_all_restored(windows: Seq<Win>, definitions: Seq<ProjectDefinition>, n: nat)
    requires
        n <= definitions.len(),
        forall|i: int|
            0 <= i < definitions.len() ==> tabs_of(windows, (#[trigger] definitions[i]).id).len()
                > 0,
    ensures
        restored_projects(windows, definitions, n).len() == n,
        forall|i: int|
            0 <= i < n ==> #[trigger] restored_projects(windows, definitions, n)[i] == (Project {
                id: definitions[i].id,
                name: definitions[i].name,
                root: definitions[i].root,
                active_pane: restored_focus(windows, definitions[i]),
            }),
    decreases n,
{
    if n > 0 {
        lemma_all_restored(windows, definitions, (n - 1) as nat);
        assert(tabs_of(windows, definitions[n - 1].id).len() > 0);
    }
}

/// The Pane that a restored Project remembers is shown by the Tab that was shown
/// last, and by no other.
proof fn lemma_restored_focus(tabs: Seq<RestoredTab>, d: ProjectDefinition, k: int)
    requires
        layouts_disjoint(tabs),
        tabs.len() <= usize::MAX,
        d.active_tab == k,
        0 <= k < tabs_of(restored_windows(tabs), d.id).len(),
    ensures
        ({
            let windows = restored_windows(tabs);
            let mine = tabs_of(windows, d.id);
            let pane = restored_focus(windows, d)->0;
            &&& restored_focus(windows, d) is Some
            &&& windows[mine[k] as int].shows(pane)
            &&& forall|w: int|
                0 <= w < windows.len() && w != mine[k] ==> !(#[trigger] windows[w]).shows(pane)
            &&& crate::hierarchy::window_of(windows, pane) == Some(mine[k] as int)
            &&& position_showing(windows, mine, pane, 0) == Some(k)
            &&& position_in(mine, mine[k] as int, 0) == Some(k)
        }),
{
    let windows = restored_windows(tabs);
    let mine = tabs_of(windows, d.id);
    lemma_tabs_among(windows, d.id, windows.len());
    let w = mine[k] as int;
    let tab = tabs[w];
    lemma_panes_nonempty(tab.layout);
    let pane = tab.layout.panes()[0];
    assert(windows[w].active == pane);
    assert(tab.layout.panes().contains(pane));
    assert(windows[w].shows(pane));
    assert forall|v: int| 0 <= v < windows.len() && v != w implies !(#[trigger] windows[v]).shows(
        pane,
    ) by {
        if windows[v].shows(pane) {
            assert(tabs[v].layout.panes().contains(pane));
        }
    }
    lemma_window_of(windows, pane, w);
    assert forall|a: int| 0 <= a < mine.len() && a != k implies !windows[#[trigger] mine[a] as int].shows(
        pane,
    ) by {
        if a < k {
            assert(mine[a] < mine[k]);
        } else {
            assert(mine[k] < mine[a]);
        }
    }
    lemma_position_showing_at(windows, mine, pane, k, 0);
    lemma_position_in_at(mine, k, 0);
}

/// Bringing back the remembered structure of a Workspace, with every Tab
/// reopened, gives the same Projects in the same order, each with the same Tabs
/// by name and shape, the same active Project, and in each Project the Tab that
/// was shown last.
pub proof fn lemma_definition_round_trip(
    s: WorkspaceState,
    t: WorkspaceState,
    definition: WorkspaceDefinition,
    tabs: Seq<RestoredTab>,
)
    requires
        s.wf(),
        s.all_open(),
        s.windows.len() <= usize::MAX,
        describes(definition, s),
        layouts_disjoint(tabs),
        definition_covers(definition.projects@, tabs),
        reopened(definition.projects@, tabs),
        tabs.len() <= usize::MAX,
    ensures
        ({
            let back = restored_state(t, definition, tabs);
            &&& back.active_project == s.active_project
            &&& back.projects.len() == s.projects.len()
            &&& forall|i: int|
                0 <= i < s.projects.len() ==> brought_back(s, back, #[trigger] s.projects[i], i)
        }),
{
    let definitions = definition.projects@;
    let windows = restored_windows(tabs);
    let back = restored_state(t, definition, tabs);
    assert forall|i: int| 0 <= i < definitions.len() implies tabs_of(
        windows,
        (#[trigger] definitions[i]).id,
    ).len() > 0 && definitions[i].id == s.projects[i].id && definitions[i].tabs@.len() == tabs_of(
        s.windows,
        s.projects[i].id,
    ).len() by {
        assert(defines(definitions[i], s, s.projects[i]));
        assert(reopened_project(definitions[i], tabs));
        assert(has_tab(s.windows, s.projects[i].id));
        lemma_tabs_among(s.windows, s.projects[i].id, s.windows.len());
        let w = choose|w: int|
            0 <= w < s.windows.len() && (#[trigger] s.windows[w]).project == s.projects[i].id;
        let mine = tabs_of(s.windows, s.projects[i].id);
        let a = choose|a: int| 0 <= a < mine.len() && #[trigger] mine[a] == w;
        assert(mine.len() > 0);
    }
    lemma_all_restored(windows, definitions, definitions.len());
    let projects = restored_projects(windows, definitions, definitions.len());
    lemma_project_at_found(s.projects, s.active_project);
    assert(known(s.projects, s.windows[s.active_window].project));
    let at = project_at(s.projects, s.active_project)->0;
    assert(s.projects[at].id == s.active_project);
    assert(definitions[at].id == s.active_project);
    lemma_tabs_among(windows, s.active_project, windows.len());
    assert(windows.len() > 0) by {
        assert(tabs_of(windows, definitions[at].id).len() > 0);
        assert(tabs_of(windows, s.active_project)[0] < windows.len());
    }
    assert forall|j: int| 0 <= j < at implies (#[trigger] projects[j]).id != s.active_project by {
        assert(definitions[j].id != definitions[at].id);
    }
    assert(projects[at].id == s.active_project);
    lemma_project_at(projects, s.active_project, at);
    assert(back.projects == projects);
    assert forall|i: int| 0 <= i < s.projects.len() implies brought_back(
        s,
        back,
        #[trigger] s.projects[i],
        i,
    ) by {
        let d = definitions[i];
        assert(defines(d, s, s.projects[i]));
        assert(reopened_project(d, tabs));
        assert(tabs_of(windows, d.id).len() > 0);
        lemma_remembered_position(s, s.projects[i]);
        let k = d.active_tab as int;
        lemma_restored_focus(tabs, d, k);
        assert(projects[i].active_pane == restored_focus(windows, d));
        if s.projects[i].id == s.active_project {
            assert(i == at) by {
                if i < at {
                    assert(projects[i].id != s.active_project);
                } else if i > at {
                    assert(definitions[at].id != definitions[i].id);
                }
            }
            assert(back.active_window == tabs_of(windows, d.id)[k]);
        }
        lemma_tabs_among(windows, d.id, windows.len());
        assert forall|j: int| 0 <= j < tabs_of(windows, d.id).len() implies same_tab(
            s.windows[tabs_of(s.windows, d.id)[j] as int],
            windows[#[trigger] tabs_of(windows, d.id)[j] as int],
        ) by {
            assert(d.tabs@[j].name == s.windows[tabs_of(s.windows, d.id)[j] as int].name);
        }
    }
}

/// Two Tabs have the same name and the same shape.
pub open spec fn same_tab(a: Win, b: Win) -> bool {
    a.name == b.name && shape(a.layout) == shape(b.layout)
}

/// A Project was brought back, at its place, with its Tabs and the Tab that was
/// shown last.
pub open spec fn brought_back(s: WorkspaceState, back: WorkspaceState, p: Project, i: int) -> bool {
    let mine = tabs_of(s.windows, p.id);
    let now = tabs_of(back.windows, p.id);
    let q = back.projects[i];
    &&& q.id == p.id
    &&& q.name == p.name
    &&& q.root == p.root
    &&& now.len() == mine.len()
    &&& forall|j: int|
        0 <= j < now.len() ==> same_tab(
            s.windows[mine[j] as int],
            back.windows[#[trigger] now[j] as int],
        )
    &&& remembered_position(back, q) == remembered_position(s, p)
}

/// While every Project has a Tab, the remembered structure leaves none out.
pub proof fn lemma_nothing_left_out(s: WorkspaceState, n: nat)
    requires
        s.all_open(),
        n <= s.projects.len(),
        s.windows.len() <= usize::MAX,
    ensures
        open_projects(s.projects.take(n as int), s.windows) == s.projects.take(n as int),
    decreases n,
{
    let head = s.projects.take(n as int);
    if n > 0 {
        lemma_nothing_left_out(s, (n - 1) as nat);
        assert(head.drop_last() =~= s.projects.take(n - 1));
        let id = s.projects[n - 1].id;
        assert(has_tab(s.windows, id));
        lemma_tabs_among(s.windows, id, s.windows.len());
        let w = choose|w: int| 0 <= w < s.windows.len() && (#[trigger] s.windows[w]).project == id;
        let mine = tabs_of(s.windows, id);
        let a = choose|a: int| 0 <= a < mine.len() && #[trigger] mine[a] == w;
        assert(mine.len() > 0);
        assert(head =~= head.drop_last().push(head.last()));
    }
}

} // verus!
