//! Storing the structure of a Workspace and bringing it back.
//!
//! The catalog definition keeps Projects, Tabs and the shape of each layout; a
//! crash snapshot also keeps Pane identities. The host spawns the Panes; the
//! functions here decide what the Workspace looks like with the Panes that
//! could be had.
use crate::hierarchy::{
    index_of, known, lemma_project_at_found, lemma_window_of, panes_owned_once, project_at,
    tabs_of, window_of, Project, Win, Workspace, WorkspaceState,
};
use crate::layout::{
    lemma_minus, lemma_minus_distinct, lemma_panes_nonempty, shape, workspace_layout_definition,
    LayoutNode, WorkspaceLayoutDefinition,
};
use crate::scope::SidebarScope;
use crate::tabs::lemma_tabs_among;
use crate::types::{PaneId, ProjectId};
use vstd::prelude::*;

verus! {

/// One remembered Tab.
#[derive(Debug)]
pub struct TabDefinition {
    pub name: Option<String>,
    pub layout: WorkspaceLayoutDefinition,
}

/// One remembered Project.
#[derive(Debug)]
pub struct ProjectDefinition {
    pub id: ProjectId,
    pub name: String,
    pub root: String,
    /// The position of the Tab that was shown last.
    pub active_tab: usize,
    pub tabs: Vec<TabDefinition>,
}

/// The remembered structure of a Workspace.
#[derive(Debug)]
pub struct WorkspaceDefinition {
    pub active_project: ProjectId,
    pub agent_scope_workspace: bool,
    pub server_scope_workspace: bool,
    pub projects: Vec<ProjectDefinition>,
}

/// The position of the first Tab of `tabs`, from `k` on, that shows `pane`.
pub open spec fn position_showing(
    windows: Seq<Win>,
    tabs: Seq<usize>,
    pane: PaneId,
    k: int,
) -> Option<int>
    decreases tabs.len() - k,
{
    if k < 0 || k >= tabs.len() {
        None
    } else if windows[tabs[k] as int].shows(pane) {
        Some(k)
    } else {
        position_showing(windows, tabs, pane, k + 1)
    }
}

/// The position of `index` in `tabs`, from `k` on.
pub open spec fn position_in(tabs: Seq<usize>, index: int, k: int) -> Option<int>
    decreases tabs.len() - k,
{
    if k < 0 || k >= tabs.len() {
        None
    } else if tabs[k] == index {
        Some(k)
    } else {
        position_in(tabs, index, k + 1)
    }
}

/// The Tab position to remember for a Project: the active Tab, or the one that
/// shows its remembered Pane, or the first.
pub open spec fn remembered_position(s: WorkspaceState, project: Project) -> int {
    let tabs = tabs_of(s.windows, project.id);
    let found = if project.id == s.active_project {
        position_in(tabs, s.active_window, 0)
    } else {
        match project.active_pane {
            Some(pane) => position_showing(s.windows, tabs, pane, 0),
            None => None,
        }
    };
    match found {
        Some(k) => k,
        None => 0,
    }
}

/// `definition` describes `project`.
pub open spec fn defines(
    definition: ProjectDefinition,
    s: WorkspaceState,
    project: Project,
) -> bool {
    let tabs = tabs_of(s.windows, project.id);
    &&& definition.id == project.id
    &&& definition.name == project.name
    &&& definition.root == project.root
    &&& definition.active_tab == remembered_position(s, project)
    &&& definition.tabs@.len() == tabs.len()
    &&& forall|j: int|
        0 <= j < tabs.len() ==> (#[trigger] definition.tabs@[j]).name
            == s.windows[tabs[j] as int].name && definition.tabs@[j].layout
            == shape(s.windows[tabs[j] as int].layout)
}

/// The Projects that have a Tab, in order.
pub open spec fn open_projects(projects: Seq<Project>, windows: Seq<Win>) -> Seq<Project>
    decreases projects.len(),
{
    if projects.len() == 0 {
        projects
    } else {
        let rest = open_projects(projects.drop_last(), windows);
        if tabs_of(windows, projects.last().id).len() == 0 {
            rest
        } else {
            rest.push(projects.last())
        }
    }
}

fn copy_name(name: &Option<String>) -> (out: Option<String>)
    ensures
        out == *name,
{
    match name {
        Some(text) => Some(text.clone()),
        None => None,
    }
}

impl Workspace {
    fn position_showing(&self, tabs: &Vec<usize>, pane: PaneId) -> (found: Option<usize>)
        requires
            forall|i: int| 0 <= i < tabs@.len() ==> (#[trigger] tabs@[i]) < self@.windows.len(),
        ensures
            index_of(found) == position_showing(self@.windows, tabs@, pane, 0),
    {
        let mut k: usize = 0;
        while k < tabs.len()
            invariant
                k <= tabs@.len(),
                forall|i: int| 0 <= i < tabs@.len() ==> (#[trigger] tabs@[i]) < self@.windows.len(),
                position_showing(self@.windows, tabs@, pane, 0) == position_showing(
                    self@.windows,
                    tabs@,
                    pane,
                    k as int,
                ),
            decreases tabs@.len() - k,
        {
            if self.windows[tabs[k]].layout.contains_pane(pane) {
                return Some(k);
            }
            k += 1;
        }
        None
    }

    fn position_in(&self, tabs: &Vec<usize>, index: usize) -> (found: Option<usize>)
        ensures
            index_of(found) == position_in(tabs@, index as int, 0),
    {
        let mut k: usize = 0;
        while k < tabs.len()
            invariant
                k <= tabs@.len(),
                position_in(tabs@, index as int, 0) == position_in(tabs@, index as int, k as int),
            decreases tabs@.len() - k,
        {
            if tabs[k] == index {
                return Some(k);
            }
            k += 1;
        }
        None
    }

    fn define_project(&self, project: &Project, tabs: &Vec<usize>) -> (definition:
        ProjectDefinition)
        requires
            tabs@ == tabs_of(self@.windows, project.id),
        ensures
            defines(definition, self@, *project),
    {
        proof {
            assert(self.windows.len() <= usize::MAX);
            lemma_tabs_among(self@.windows, project.id, self@.windows.len());
        }
        let found: Option<usize> = if project.id == self.active_project {
            self.position_in(tabs, self.active_window)
        } else {
            match project.active_pane {
                Some(pane) => self.position_showing(tabs, pane),
                None => None,
            }
        };
        let active_tab: usize = match found {
            Some(k) => k,
            None => 0,
        };
        let mut stored: Vec<TabDefinition> = Vec::new();
        let mut j: usize = 0;
        while j < tabs.len()
            invariant
                j <= tabs@.len(),
                tabs@ == tabs_of(self@.windows, project.id),
                forall|i: int| 0 <= i < tabs@.len() ==> (#[trigger] tabs@[i]) < self@.windows.len(),
                stored@.len() == j,
                forall|i: int|
                    0 <= i < j ==> (#[trigger] stored@[i]).name
                        == self@.windows[tabs@[i] as int].name && stored@[i].layout
                        == shape(self@.windows[tabs@[i] as int].layout),
            decreases tabs@.len() - j,
        {
            stored.push(
                TabDefinition {
                    name: copy_name(&self.windows[tabs[j]].name),
                    layout: workspace_layout_definition(&self.windows[tabs[j]].layout),
                },
            );
            j += 1;
        }
        ProjectDefinition {
            id: project.id,
            name: project.name.clone(),
            root: project.root.clone(),
            active_tab,
            tabs: stored,
        }
    }

    /// The structure to remember. Nothing where no Project has a Tab.
    pub fn workspace_definition(
        &self,
        agent_scope: SidebarScope,
        server_scope: SidebarScope,
    ) -> (definition: Option<WorkspaceDefinition>)
        ensures
            definition is Some <==> open_projects(self@.projects, self@.windows).len() > 0,
            definition matches Some(d) ==> {
                let kept = open_projects(self@.projects, self@.windows);
                &&& d.active_project == self@.active_project
                &&& d.agent_scope_workspace == (agent_scope == SidebarScope::Workspace)
                &&& d.server_scope_workspace == (server_scope == SidebarScope::Workspace)
                &&& d.projects@.len() == kept.len()
                &&& forall|i: int|
                    0 <= i < kept.len() ==> defines(#[trigger] d.projects@[i], self@, kept[i])
            },
    {
        let mut stored: Vec<ProjectDefinition> = Vec::new();
        let mut i: usize = 0;
        let ghost all = self@.projects;
        assert(all.take(0) =~= Seq::<Project>::empty());
        while i < self.projects.len()
            invariant
                i <= self.projects@.len(),
                all == self@.projects,
                stored@.len() == open_projects(all.take(i as int), self@.windows).len(),
                forall|k: int|
                    0 <= k < stored@.len() ==> defines(
                        #[trigger] stored@[k],
                        self@,
                        open_projects(all.take(i as int), self@.windows)[k],
                    ),
            decreases self.projects@.len() - i,
        {
            assert(all.take(i + 1).drop_last() =~= all.take(i as int));
            let tabs = self.project_window_indices(self.projects[i].id);
            if tabs.len() > 0 {
                stored.push(self.define_project(&self.projects[i], &tabs));
            }
            i += 1;
        }
        assert(all.take(i as int) =~= all);
        if stored.len() == 0 {
            return None;
        }
        Some(
            WorkspaceDefinition {
                active_project: self.active_project,
                agent_scope_workspace: agent_scope == SidebarScope::Workspace,
                server_scope_workspace: server_scope == SidebarScope::Workspace,
                projects: stored,
            },
        )
    }
}

/// One Tab that the host could reopen.
#[derive(Debug)]
pub struct RestoredTab {
    pub project: ProjectId,
    pub name: Option<String>,
    pub layout: LayoutNode,
}

impl RestoredTab {
    /// The Tab, focused on its first Pane.
    pub open spec fn win(self) -> Win {
        Win {
            project: self.project,
            layout: self.layout,
            active: self.layout.panes()[0],
            zoomed: None,
            name: self.name,
        }
    }
}

/// The Tabs that were reopened.
pub open spec fn restored_windows(tabs: Seq<RestoredTab>) -> Seq<Win> {
    Seq::new(tabs.len(), |i: int| tabs[i].win())
}

/// The Pane that a restored Project remembers: the one focused in its last
/// shown Tab, or in its last Tab where fewer could be reopened.
pub open spec fn restored_focus(windows: Seq<Win>, definition: ProjectDefinition) -> Option<PaneId> {
    let tabs = tabs_of(windows, definition.id);
    if tabs.len() == 0 {
        None
    } else {
        let k = if definition.active_tab < tabs.len() {
            definition.active_tab as int
        } else {
            tabs.len() - 1
        };
        Some(windows[tabs[k] as int].active)
    }
}

/// The first `n` remembered Projects that have a reopened Tab.
pub open spec fn restored_projects(
    windows: Seq<Win>,
    definitions: Seq<ProjectDefinition>,
    n: nat,
) -> Seq<Project>
    decreases n,
{
    if n == 0 {
        Seq::empty()
    } else {
        let rest = restored_projects(windows, definitions, (n - 1) as nat);
        let d = definitions[n - 1];
        if tabs_of(windows, d.id).len() == 0 {
            rest
        } else {
            rest.push(
                Project {
                    id: d.id,
                    name: d.name,
                    root: d.root,
                    active_pane: restored_focus(windows, d),
                },
            )
        }
    }
}

/// One past the largest of the first `n` Project ids, and at least `floor`.
pub open spec fn id_ceiling(projects: Seq<Project>, floor: int, n: nat) -> int
    decreases n,
{
    if n == 0 {
        floor
    } else {
        let rest = id_ceiling(projects, floor, (n - 1) as nat);
        if projects[n - 1].id.0 + 1 > rest {
            projects[n - 1].id.0 + 1
        } else {
            rest
        }
    }
}

/// The state after the remembered structure was brought back with the Tabs
/// that could be reopened.
pub open spec fn restored_state(
    s: WorkspaceState,
    definition: WorkspaceDefinition,
    tabs: Seq<RestoredTab>,
) -> WorkspaceState {
    let windows = restored_windows(tabs);
    let projects = restored_projects(windows, definition.projects@, definition.projects@.len());
    if windows.len() == 0 || projects.len() == 0 {
        WorkspaceState { windows, projects, ..s }
    } else {
        let active_project = if project_at(projects, definition.active_project) is Some {
            definition.active_project
        } else {
            projects[0].id
        };
        let focus = projects[project_at(projects, active_project)->0].active_pane;
        WorkspaceState {
            windows,
            projects,
            next_project_id: id_ceiling(projects, 0, projects.len()),
            active_project,
            active_window: match focus {
                Some(pane) => match window_of(windows, pane) {
                    Some(w) => w,
                    None => 0,
                },
                None => 0,
            },
            ..s
        }
    }
}

/// Layouts that can be shown together: each shows its Panes once, and none
/// shares a Pane with another.
pub open spec fn layouts_disjoint(tabs: Seq<RestoredTab>) -> bool {
    &&& forall|i: int| 0 <= i < tabs.len() ==> (#[trigger] tabs[i]).layout.panes().no_duplicates()
    &&& forall|i: int, j: int, pane: PaneId|
        0 <= i < tabs.len() && 0 <= j < tabs.len() && #[trigger] tabs[i].layout.panes().contains(
            pane,
        ) && #[trigger] tabs[j].layout.panes().contains(pane) ==> i == j
}

/// A definition names each Project once, and every Tab belongs to one of them.
pub open spec fn definition_covers(
    definitions: Seq<ProjectDefinition>,
    tabs: Seq<RestoredTab>,
) -> bool {
    &&& forall|i: int, j: int|
        0 <= i < j < definitions.len() ==> (#[trigger] definitions[i]).id != (
        #[trigger] definitions[j]).id
    &&& forall|i: int| 0 <= i < definitions.len() ==> (#[trigger] definitions[i]).id.0 < u64::MAX
    &&& forall|k: int|
        0 <= k < tabs.len() ==> exists|i: int|
            0 <= i < definitions.len() && (#[trigger] definitions[i]).id
                == (#[trigger] tabs[k]).project
}

proof fn lemma_restored_windows(tabs: Seq<RestoredTab>)
    requires
        layouts_disjoint(tabs),
    ensures
        panes_owned_once(restored_windows(tabs)),
{
    let windows = restored_windows(tabs);
    assert forall|i: int| 0 <= i < windows.len() implies (#[trigger] windows[i]).wf() by {
        assert(tabs[i].layout.panes().no_duplicates());
        lemma_panes_nonempty(tabs[i].layout);
        assert(windows[i].shows(windows[i].layout.panes()[0]));
    }
    assert forall|i: int, j: int, pane: PaneId|
        0 <= i < windows.len() && 0 <= j < windows.len() && #[trigger] windows[i].shows(pane)
            && #[trigger] windows[j].shows(pane) implies i == j by {
        assert(tabs[i].layout.panes().contains(pane) && tabs[j].layout.panes().contains(pane));
    }
}

/// The restored Projects: distinct, each with a Tab, and all that have one.
proof fn lemma_restored_projects(windows: Seq<Win>, definitions: Seq<ProjectDefinition>, n: nat)
    requires
        n <= definitions.len(),
        windows.len() <= usize::MAX,
        forall|i: int, j: int|
            0 <= i < j < definitions.len() ==> (#[trigger] definitions[i]).id != (
            #[trigger] definitions[j]).id,
    ensures
        forall|k: int|
            0 <= k < restored_projects(windows, definitions, n).len() ==> {
                let p = #[trigger] restored_projects(windows, definitions, n)[k];
                exists|i: int|
                    0 <= i < n && (#[trigger] definitions[i]).id == p.id && tabs_of(
                        windows,
                        p.id,
                    ).len() > 0 && p.active_pane == restored_focus(windows, definitions[i])
            },
        crate::hierarchy::ids_distinct(restored_projects(windows, definitions, n)),
        forall|i: int|
            0 <= i < n && tabs_of(windows, (#[trigger] definitions[i]).id).len() > 0 ==> known(
                restored_projects(windows, definitions, n),
                definitions[i].id,
            ),
    decreases n,
{
    if n > 0 {
        lemma_restored_projects(windows, definitions, (n - 1) as nat);
        let rest = restored_projects(windows, definitions, (n - 1) as nat);
        let out = restored_projects(windows, definitions, n);
        let d = definitions[n - 1];
        assert forall|k: int| 0 <= k < out.len() implies {
            let p = #[trigger] out[k];
            exists|i: int|
                0 <= i < n && (#[trigger] definitions[i]).id == p.id && tabs_of(
                    windows,
                    p.id,
                ).len() > 0 && p.active_pane == restored_focus(windows, definitions[i])
        } by {
            if k < rest.len() {
                let p = rest[k];
                let i = choose|i: int|
                    0 <= i < n - 1 && (#[trigger] definitions[i]).id == p.id && tabs_of(
                        windows,
                        p.id,
                    ).len() > 0 && p.active_pane == restored_focus(windows, definitions[i]);
                assert(definitions[i].id == out[k].id);
            } else {
                assert(definitions[n - 1].id == out[k].id);
            }
        }
        assert forall|i: int, j: int| 0 <= i < j < out.len() implies (#[trigger] out[i]).id != (
        #[trigger] out[j]).id by {
            if j < rest.len() {
                assert(rest[i].id != rest[j].id);
            } else {
                let p = rest[i];
                let m = choose|m: int|
                    0 <= m < n - 1 && (#[trigger] definitions[m]).id == p.id && tabs_of(
                        windows,
                        p.id,
                    ).len() > 0 && p.active_pane == restored_focus(windows, definitions[m]);
                assert(definitions[m].id != definitions[n - 1].id);
            }
        }
        assert forall|i: int|
            0 <= i < n && tabs_of(windows, (#[trigger] definitions[i]).id).len() > 0 implies known(
            out,
            definitions[i].id,
        ) by {
            if i < n - 1 {
                assert(known(rest, definitions[i].id));
                let k = choose|k: int|
                    0 <= k < rest.len() && (#[trigger] rest[k]).id == definitions[i].id;
                assert(out[k].id == definitions[i].id);
            } else {
                assert(out[out.len() - 1].id == definitions[i].id);
            }
        }
    }
}

proof fn lemma_id_ceiling(projects: Seq<Project>, floor: int, n: nat)
    requires
        n <= projects.len(),
        0 <= floor,
    ensures
        floor <= id_ceiling(projects, floor, n),
        floor <= u64::MAX && (forall|i: int|
            0 <= i < n ==> (#[trigger] projects[i]).id.0 < u64::MAX) ==> id_ceiling(
            projects,
            floor,
            n,
        ) <= u64::MAX,
        forall|i: int|
            0 <= i < n ==> (#[trigger] projects[i]).id.0 < id_ceiling(projects, floor, n),
    decreases n,
{
    if n > 0 {
        lemma_id_ceiling(projects, floor, (n - 1) as nat);
    }
}

/// Bringing a remembered structure back gives a running Workspace in which
/// every Project has a Tab, as soon as one Tab could be reopened.
pub proof fn lemma_restored_state(
    s: WorkspaceState,
    definition: WorkspaceDefinition,
    tabs: Seq<RestoredTab>,
)
    requires
        layouts_disjoint(tabs),
        definition_covers(definition.projects@, tabs),
        0 < tabs.len() <= usize::MAX,
    ensures
        restored_state(s, definition, tabs).wf(),
        restored_state(s, definition, tabs).all_open(),
{
    let windows = restored_windows(tabs);
    let definitions = definition.projects@;
    let projects = restored_projects(windows, definitions, definitions.len());
    let out = restored_state(s, definition, tabs);
    lemma_restored_windows(tabs);
    lemma_restored_projects(windows, definitions, definitions.len());
    assert forall|k: int| 0 <= k < windows.len() implies known(
        projects,
        (#[trigger] windows[k]).project,
    ) by {
        let i = choose|i: int|
            0 <= i < definitions.len() && (#[trigger] definitions[i]).id == (
            #[trigger] tabs[k]).project;
        assert(definitions[i].id == tabs[k].project);
        lemma_tabs_among(windows, windows[k].project, windows.len());
        let t = tabs_of(windows, windows[k].project);
        let a = choose|a: int| 0 <= a < t.len() && #[trigger] t[a] == k;
        assert(t.len() > 0);
    }
    assert(known(projects, windows[0].project));
    assert(projects.len() > 0);
    assert forall|k: int| 0 <= k < projects.len() implies crate::hierarchy::has_tab(
        windows,
        (#[trigger] projects[k]).id,
    ) && projects[k].id.0 < u64::MAX by {
        let p = projects[k];
        let i = choose|i: int|
            0 <= i < definitions.len() && (#[trigger] definitions[i]).id == p.id && tabs_of(
                windows,
                p.id,
            ).len() > 0 && p.active_pane == restored_focus(windows, definitions[i]);
        assert(definitions[i].id.0 < u64::MAX);
        lemma_tabs_among(windows, p.id, windows.len());
        assert(windows[tabs_of(windows, p.id)[0] as int].project == p.id);
    }
    lemma_id_ceiling(projects, 0, projects.len());
    lemma_project_at_found(projects, definition.active_project);
    lemma_project_at_found(projects, projects[0].id);
    assert(known(projects, projects[0].id));
    let at = project_at(projects, out.active_project)->0;
    lemma_project_at_found(projects, out.active_project);
    assert(projects[at].id == out.active_project);
    let p = projects[at];
    let i = choose|i: int|
        0 <= i < definitions.len() && (#[trigger] definitions[i]).id == p.id && tabs_of(
            windows,
            p.id,
        ).len() > 0 && p.active_pane == restored_focus(windows, definitions[i]);
    let t = tabs_of(windows, p.id);
    lemma_tabs_among(windows, p.id, windows.len());
    let k = if definitions[i].active_tab < t.len() {
        definitions[i].active_tab as int
    } else {
        t.len() - 1
    };
    let w = t[k] as int;
    assert(windows[w].project == p.id);
    let pane = windows[w].active;
    assert(p.active_pane == Some(pane));
    assert(windows[w].wf());
    assert(windows[w].shows(pane));
    assert forall|j: int| 0 <= j < w implies !(#[trigger] windows[j]).shows(pane) by {
        if windows[j].shows(pane) {
            assert(windows[w].shows(pane));
        }
    }
    lemma_window_of(windows, pane, w);
    assert(out.active_window == w);
}

impl Workspace {
    fn restored_focus(&self, definition: &ProjectDefinition) -> (focus: Option<PaneId>)
        ensures
            focus == restored_focus(self@.windows, *definition),
    {
        proof {
            assert(self.windows.len() <= usize::MAX);
            lemma_tabs_among(self@.windows, definition.id, self@.windows.len());
        }
        let tabs = self.project_window_indices(definition.id);
        if tabs.len() == 0 {
            return None;
        }
        let k: usize = if definition.active_tab < tabs.len() {
            definition.active_tab
        } else {
            tabs.len() - 1
        };
        Some(self.windows[tabs[k]].active)
    }

    /// Replace the hierarchy by a remembered one. `tabs` are the Tabs whose
    /// Panes the host could spawn, in order; a Project with none is dropped.
    /// Whether anything could be brought back.
    pub fn restore_workspace_definition(
        &mut self,
        definition: &WorkspaceDefinition,
        tabs: Vec<RestoredTab>,
    ) -> (restored: bool)
        requires
            layouts_disjoint(tabs@),
            definition_covers(definition.projects@, tabs@),
        ensures
            final(self)@ == restored_state(old(self)@, *definition, tabs@),
            restored == (tabs@.len() > 0),
            restored ==> final(self)@.wf() && final(self)@.all_open(),
    {
        let ghost s = self@;
        let ghost given = tabs@;
        let ghost definitions = definition.projects@;
        let ghost windows = restored_windows(given);
        proof {
            assert(tabs.len() <= usize::MAX);
            if given.len() > 0 {
                lemma_restored_state(s, *definition, given);
            }
        }
        self.windows.clear();
        self.projects.clear();
        let mut rest = tabs;
        let n: usize = rest.len();
        let mut i: usize = 0;
        while i < n
            invariant
                i <= n,
                n == given.len(),
                rest@ == given.skip(i as int),
                self@ == (WorkspaceState {
                    windows: restored_windows(given).take(i as int),
                    projects: Seq::empty(),
                    ..s
                }),
            decreases n - i,
        {
            let tab = rest.remove(0);
            proof {
                assert(tab == given[i as int]);
                assert(rest@ =~= given.skip(i + 1));
                assert(restored_windows(given).take(i + 1) =~= restored_windows(given).take(
                    i as int,
                ).push(tab.win()));
            }
            let active = tab.layout.first_pane();
            self.windows.push(
                Win {
                    project: tab.project,
                    layout: tab.layout,
                    active,
                    zoomed: None,
                    name: tab.name,
                },
            );
            i += 1;
        }
        assert(restored_windows(given).take(i as int) =~= windows);
        let count: usize = definition.projects.len();
        let mut p: usize = 0;
        while p < count
            invariant
                p <= count,
                count == definitions.len(),
                definitions == definition.projects@,
                windows == restored_windows(given),
                self@ == (WorkspaceState {
                    windows,
                    projects: restored_projects(windows, definitions, p as nat),
                    ..s
                }),
            decreases count - p,
        {
            if self.project_window_indices(definition.projects[p].id).len() > 0 {
                let focus = self.restored_focus(&definition.projects[p]);
                self.projects.push(
                    Project {
                        id: definition.projects[p].id,
                        name: definition.projects[p].name.clone(),
                        root: definition.projects[p].root.clone(),
                        active_pane: focus,
                    },
                );
            }
            p += 1;
        }
        let ghost projects = restored_projects(windows, definitions, definitions.len());
        if self.windows.len() == 0 {
            return false;
        }
        proof {
            assert(restored_state(s, *definition, given).wf());
            assert(projects.len() > 0) by {
                assert(known(projects, restored_state(s, *definition, given).windows[0].project))
                    by {
                    if projects.len() == 0 {
                        assert(restored_state(s, *definition, given).projects =~= projects);
                    }
                }
            }
            assert forall|k: int| 0 <= k < projects.len() implies (#[trigger] projects[k]).id.0
                < u64::MAX by {
                lemma_restored_projects(windows, definitions, definitions.len());
                let q = projects[k];
                let d = choose|d: int|
                    0 <= d < definitions.len() && (#[trigger] definitions[d]).id == q.id
                        && tabs_of(windows, q.id).len() > 0 && q.active_pane == restored_focus(
                        windows,
                        definitions[d],
                    );
                assert(definitions[d].id.0 < u64::MAX);
            }
            lemma_project_at_found(projects, definition.active_project);
            lemma_project_at_found(projects, projects[0].id);
            assert(known(projects, projects[0].id));
        }
        self.next_project_id = self.id_ceiling(0);
        self.active_project = if self.project_position(definition.active_project).is_some() {
            definition.active_project
        } else {
            self.projects[0].id
        };
        let focus: Option<PaneId> = match self.project_position(self.active_project) {
            Some(i) => self.projects[i].active_pane,
            None => None,
        };
        self.active_window = match focus {
            Some(pane) => match self.window_of(pane) {
                Some(w) => w,
                None => 0,
            },
            None => 0,
        };
        true
    }

    fn id_ceiling(&self, floor: u64) -> (next: u64)
        requires
            forall|i: int|
                0 <= i < self@.projects.len() ==> (#[trigger] self@.projects[i]).id.0 < u64::MAX,
        ensures
            next == id_ceiling(self@.projects, floor as int, self@.projects.len()),
    {
        let mut next: u64 = floor;
        let mut i: usize = 0;
        while i < self.projects.len()
            invariant
                i <= self.projects@.len(),
                forall|i: int|
                    0 <= i < self@.projects.len() ==> (#[trigger] self@.projects[i]).id.0
                        < u64::MAX,
                next == id_ceiling(self@.projects, floor as int, i as nat),
            decreases self.projects@.len() - i,
        {
            let above: u64 = self.projects[i].id.0 + 1;
            if above > next {
                next = above;
            }
            i += 1;
        }
        next
    }
}

/// A layout without the Panes of `ids` that are not live.
pub open spec fn pruned(
    layout: Option<LayoutNode>,
    ids: Seq<PaneId>,
    live: Seq<PaneId>,
) -> Option<LayoutNode>
    decreases ids.len(),
{
    if ids.len() == 0 {
        layout
    } else {
        let rest = pruned(layout, ids.drop_last(), live);
        if live.contains(ids.last()) {
            rest
        } else {
            match rest {
                Some(tree) => tree.minus(ids.last()),
                None => None,
            }
        }
    }
}

/// A layout without the Panes that are not live.
pub open spec fn live_layout(layout: LayoutNode, live: Seq<PaneId>) -> Option<LayoutNode> {
    pruned(Some(layout), layout.panes(), live)
}

proof fn lemma_pruned(layout: LayoutNode, ids: Seq<PaneId>, live: Seq<PaneId>)
    requires
        layout.panes().no_duplicates(),
    ensures
        pruned(Some(layout), ids, live) matches Some(tree) ==> tree.panes().no_duplicates() && (
        forall|q: PaneId| #[trigger]
            tree.panes().contains(q) <==> layout.panes().contains(q) && (live.contains(q)
                || !ids.contains(q))),
        pruned(Some(layout), ids, live) is None ==> forall|q: PaneId| #[trigger]
            layout.panes().contains(q) ==> !live.contains(q) && ids.contains(q),
    decreases ids.len(),
{
    if ids.len() > 0 {
        let head = ids.drop_last();
        let last = ids.last();
        lemma_pruned(layout, head, live);
        assert forall|q: PaneId| #[trigger] ids.contains(q) <==> head.contains(q) || q == last by {
            if ids.contains(q) {
                let i = choose|i: int| 0 <= i < ids.len() && ids[i] == q;
                if i < head.len() {
                    assert(head[i] == q);
                }
            }
            if head.contains(q) {
                let i = choose|i: int| 0 <= i < head.len() && head[i] == q;
                assert(ids[i] == q);
            }
            if q == last {
                assert(ids[ids.len() - 1] == q);
            }
        }
        if let Some(tree) = pruned(Some(layout), head, live) {
            if !live.contains(last) {
                lemma_minus(tree, last);
                lemma_minus_distinct(tree, last);
                if tree.minus(last) is None {
                    assert forall|q: PaneId| #[trigger] layout.panes().contains(q) implies
                        !live.contains(q) && ids.contains(q) by {
                        if live.contains(q) || !ids.contains(q) {
                            assert(tree.panes().contains(q));
                        }
                    }
                }
            }
        }
    }
}

/// A restored layout never shows a Pane that is not live, and loses no Pane
/// that is.
pub proof fn lemma_live_layout(layout: LayoutNode, live: Seq<PaneId>)
    requires
        layout.panes().no_duplicates(),
    ensures
        live_layout(layout, live) matches Some(tree) ==> tree.panes().no_duplicates() && (forall|
            q: PaneId,
        | #[trigger]
            tree.panes().contains(q) <==> layout.panes().contains(q) && live.contains(q)),
        live_layout(layout, live) is None <==> (forall|q: PaneId| #[trigger]
            layout.panes().contains(q) ==> !live.contains(q)),
{
    lemma_pruned(layout, layout.panes(), live);
    if let Some(tree) = live_layout(layout, live) {
        lemma_panes_nonempty(tree);
        assert(tree.panes().contains(tree.panes()[0]));
        assert(layout.panes().contains(tree.panes()[0]));
    }
}

/// The Tab that is left of a saved one, focused where it was if it can be.
pub open spec fn revived(win: Win, live: Seq<PaneId>) -> Option<Win> {
    match live_layout(win.layout, live) {
        Some(tree) => Some(
            Win {
                layout: tree,
                active: if tree.panes().contains(win.active) {
                    win.active
                } else {
                    tree.panes()[0]
                },
                zoomed: match win.zoomed {
                    Some(pane) if live.contains(pane) => Some(pane),
                    _ => None,
                },
                ..win
            },
        ),
        None => None,
    }
}

/// The Tabs that are left of the first `n` saved ones.
pub open spec fn revived_tabs(saved: Seq<Win>, live: Seq<PaneId>, n: nat) -> Seq<Win>
    decreases n,
{
    if n == 0 {
        Seq::empty()
    } else {
        let rest = revived_tabs(saved, live, (n - 1) as nat);
        match revived(saved[n - 1], live) {
            Some(win) => rest.push(win),
            None => rest,
        }
    }
}

/// A saved Workspace.
#[derive(Debug)]
pub struct Snapshot {
    pub windows: Vec<Win>,
    pub active_window: usize,
    pub projects: Vec<Project>,
    pub next_project_id: u64,
}

impl Snapshot {
    /// What a running Workspace saves: every Tab is well formed and belongs to a
    /// Project that is there, and no Pane is shown twice.
    pub open spec fn sound(self) -> bool {
        &&& panes_owned_once(self.windows@)
        &&& crate::hierarchy::ids_distinct(self.projects@)
        &&& self.projects@.len() > 0
        &&& forall|i: int|
            0 <= i < self.windows@.len() ==> known(
                self.projects@,
                (#[trigger] self.windows@[i]).project,
            )
    }
}

/// The Tabs of a restored snapshot: those that are left, else one with the
/// fallback Pane.
pub open spec fn snapshot_windows(
    saved: Seq<Win>,
    projects: Seq<Project>,
    live: Seq<PaneId>,
    fallback: Option<PaneId>,
) -> Seq<Win> {
    let left = revived_tabs(saved, live, saved.len());
    match fallback {
        Some(pane) if left.len() == 0 => seq![
            Win::single(
                if projects.len() > 0 {
                    projects[0].id
                } else {
                    ProjectId(1)
                },
                pane,
                None,
            ),
        ],
        _ => left,
    }
}

/// The state after a snapshot was restored with the Panes that are live.
pub open spec fn snapshot_state(
    s: WorkspaceState,
    saved: Seq<Win>,
    saved_active: int,
    projects: Seq<Project>,
    saved_next: int,
    live: Seq<PaneId>,
    fallback: Option<PaneId>,
) -> WorkspaceState {
    let windows = snapshot_windows(saved, projects, live, fallback);
    let active = if saved_active < windows.len() - 1 {
        saved_active
    } else {
        windows.len() - 1
    };
    WorkspaceState {
        windows,
        projects,
        next_project_id: id_ceiling(
            projects,
            if projects.len() == 0 && saved_next < 2 {
                2
            } else {
                saved_next
            },
            projects.len(),
        ),
        active_window: active,
        active_project: windows[active].project,
        ..s
    }
}

pub(crate) proof fn lemma_revived(win: Win, live: Seq<PaneId>)
    requires
        win.wf(),
    ensures
        revived(win, live) matches Some(out) ==> out.wf() && out.project == win.project && (forall|
            q: PaneId,
        | #[trigger]
            out.shows(q) <==> win.shows(q) && live.contains(q)),
{
    lemma_live_layout(win.layout, live);
    if let Some(out) = revived(win, live) {
        let tree = live_layout(win.layout, live)->0;
        lemma_panes_nonempty(tree);
        assert(tree.panes().contains(tree.panes()[0]));
        assert forall|q: PaneId| #[trigger] out.shows(q) <==> win.shows(q) && live.contains(
            q,
        ) by {
            assert(out.shows(q) == tree.panes().contains(q));
        }
    }
}

/// Every Tab left of a snapshot is well formed, stands for a saved Tab, and
/// shows live Panes only.
proof fn lemma_revived_tabs(saved: Seq<Win>, live: Seq<PaneId>, n: nat)
    requires
        panes_owned_once(saved),
        n <= saved.len(),
    ensures
        panes_owned_once(revived_tabs(saved, live, n)),
        forall|k: int|
            0 <= k < revived_tabs(saved, live, n).len() ==> exists|i: int|
                0 <= i < n && #[trigger] revived(saved[i], live) == Some(
                    #[trigger] revived_tabs(saved, live, n)[k],
                ),
        forall|k: int, q: PaneId|
            0 <= k < revived_tabs(saved, live, n).len() && #[trigger] revived_tabs(
                saved,
                live,
                n,
            )[k].shows(q) ==> live.contains(q),
    decreases n, 0nat,
{
    if n > 0 {
        lemma_revived_tabs(saved, live, (n - 1) as nat);
        let rest = revived_tabs(saved, live, (n - 1) as nat);
        let out = revived_tabs(saved, live, n);
        assert(saved[n - 1].wf());
        lemma_revived(saved[n - 1], live);
        assert forall|k: int| 0 <= k < out.len() implies exists|i: int|
            0 <= i < n && #[trigger] revived(saved[i], live) == Some(#[trigger] out[k]) by {
            if k < rest.len() {
                let i = choose|i: int|
                    0 <= i < n - 1 && #[trigger] revived(saved[i], live) == Some(rest[k]);
                assert(revived(saved[i], live) == Some(out[k]));
            } else {
                assert(revived(saved[n - 1], live) == Some(out[k]));
            }
        }
        assert forall|k: int| 0 <= k < out.len() implies (#[trigger] out[k]).wf() by {
            if k < rest.len() {
                assert(rest[k].wf());
            }
        }
        assert forall|a: int, b: int, q: PaneId|
            0 <= a < out.len() && 0 <= b < out.len() && #[trigger] out[a].shows(q)
                && #[trigger] out[b].shows(q) implies a == b by {
            if a < rest.len() && b < rest.len() {
                assert(rest[a].shows(q) && rest[b].shows(q));
            } else if a < rest.len() {
                lemma_not_twice(saved, live, (n - 1) as nat, a, q);
            } else if b < rest.len() {
                lemma_not_twice(saved, live, (n - 1) as nat, b, q);
            }
        }
        assert forall|k: int, q: PaneId|
            0 <= k < out.len() && #[trigger] out[k].shows(q) implies live.contains(q) by {
            if k < rest.len() {
                assert(rest[k].shows(q));
            }
        }
    }
}

/// A Pane shown by a Tab left of the first `n` is shown by none of the later
/// saved ones.
proof fn lemma_not_twice(saved: Seq<Win>, live: Seq<PaneId>, n: nat, k: int, q: PaneId)
    requires
        panes_owned_once(saved),
        n < saved.len(),
        0 <= k < revived_tabs(saved, live, n).len(),
        revived_tabs(saved, live, n)[k].shows(q),
    ensures
        !saved[n as int].shows(q),
    decreases n, 1nat,
{
    lemma_revived_tabs(saved, live, n);
    let i = choose|i: int|
        0 <= i < n && #[trigger] revived(saved[i], live) == Some(revived_tabs(saved, live, n)[k]);
    assert(saved[i].wf());
    lemma_revived(saved[i], live);
    assert(saved[i].shows(q));
}

fn prune_layout(layout: LayoutNode, live: &Vec<PaneId>) -> (out: Option<LayoutNode>)
    ensures
        out == live_layout(layout, live@),
{
    let ids = layout.pane_ids();
    let ghost whole = layout;
    let mut tree = Some(layout);
    let mut i: usize = 0;
    assert(ids@.take(0) =~= Seq::<PaneId>::empty());
    while i < ids.len()
        invariant
            i <= ids@.len(),
            tree == pruned(Some(whole), ids@.take(i as int), live@),
        decreases ids@.len() - i,
    {
        assert(ids@.take(i + 1).drop_last() =~= ids@.take(i as int));
        if !has_pane(live, ids[i]) {
            tree = match tree {
                Some(node) => node.without(ids[i]),
                None => None,
            };
        }
        i += 1;
    }
    assert(ids@.take(i as int) =~= ids@);
    tree
}

/// Whether `panes` lists `pane`.
pub fn has_pane(panes: &Vec<PaneId>, pane: PaneId) -> (found: bool)
    ensures
        found == panes@.contains(pane),
{
    let mut i: usize = 0;
    while i < panes.len()
        invariant
            i <= panes@.len(),
            forall|j: int| 0 <= j < i ==> panes@[j] != pane,
        decreases panes@.len() - i,
    {
        if panes[i] == pane {
            assert(panes@.contains(panes@[i as int]));
            return true;
        }
        i += 1;
    }
    false
}

fn revive(win: Win, live: &Vec<PaneId>) -> (out: Option<Win>)
    ensures
        out == revived(win, live@),
{
    let Win { project, layout, active, zoomed, name } = win;
    match prune_layout(layout, live) {
        Some(tree) => {
            let focus = if tree.contains_pane(active) {
                active
            } else {
                tree.first_pane()
            };
            let zoom = match zoomed {
                Some(pane) => if has_pane(live, pane) {
                    Some(pane)
                } else {
                    None
                },
                None => None,
            };
            Some(Win { project, layout: tree, active: focus, zoomed: zoom, name })
        },
        None => None,
    }
}

impl Workspace {
    /// Replace the hierarchy by a saved one. `live` are the Panes whose process
    /// could be restored; a Pane that could not is taken out of its layout, and
    /// a Tab with none is dropped. `fallback` is a fresh Pane, needed where no
    /// Tab is left.
    pub fn restore(&mut self, snapshot: Snapshot, live: &Vec<PaneId>, fallback: Option<PaneId>)
        requires
            forall|i: int|
                0 <= i < snapshot.projects@.len() ==> (#[trigger] snapshot.projects@[i]).id.0
                    < u64::MAX,
            snapshot_windows(
                snapshot.windows@,
                snapshot.projects@,
                live@,
                fallback,
            ).len() > 0,
        ensures
            final(self)@ == snapshot_state(
                old(self)@,
                snapshot.windows@,
                snapshot.active_window as int,
                snapshot.projects@,
                snapshot.next_project_id as int,
                live@,
                fallback,
            ),
            panes_owned_once(snapshot.windows@) ==> final(self)@.tabs_wf(),
            crate::hierarchy::ids_distinct(snapshot.projects@) ==> final(self)@.ids_wf(),
            snapshot.sound() ==> final(self)@.wf(),
    {
        let ghost s = self@;
        let ghost saved = snapshot.windows@;
        let ghost projects = snapshot.projects@;
        let Snapshot { windows, active_window, projects: stored, next_project_id } = snapshot;
        self.windows.clear();
        self.projects = stored;
        let mut rest = windows;
        let n: usize = rest.len();
        let mut i: usize = 0;
        while i < n
            invariant
                i <= n,
                n == saved.len(),
                rest@ == saved.skip(i as int),
                self@ == (WorkspaceState {
                    windows: revived_tabs(saved, live@, i as nat),
                    projects,
                    ..s
                }),
            decreases n - i,
        {
            let win = rest.remove(0);
            proof {
                assert(win == saved[i as int]);
                assert(rest@ =~= saved.skip(i + 1));
            }
            if let Some(out) = revive(win, live) {
                self.windows.push(out);
            }
            i += 1;
        }
        if self.windows.len() == 0 {
            if let Some(pane) = fallback {
                let owner = if self.projects.len() > 0 {
                    self.projects[0].id
                } else {
                    ProjectId(1)
                };
                self.windows.push(Win::new_single(owner, pane, None));
            }
        }
        let ghost shown = snapshot_windows(saved, projects, live@, fallback);
        assert(self@.windows =~= shown);
        proof {
            if panes_owned_once(saved) {
                lemma_revived_tabs(saved, live@, saved.len());
                if let Some(pane) = fallback {
                    crate::hierarchy::lemma_single(shown[0].project, pane, None);
                }
                assert(panes_owned_once(shown));
            }
            lemma_id_ceiling(projects, next_project_id as int, projects.len());
        }
        let floor: u64 = if self.projects.len() == 0 && next_project_id < 2 {
            2
        } else {
            next_project_id
        };
        self.next_project_id = self.id_ceiling(floor);
        let last: usize = self.windows.len() - 1;
        self.active_window = if active_window < last {
            active_window
        } else {
            last
        };
        self.active_project = self.windows[self.active_window].project;
        proof {
            if snapshot.sound() {
                assert forall|k: int| 0 <= k < shown.len() implies known(
                    projects,
                    (#[trigger] shown[k]).project,
                ) by {
                    if revived_tabs(saved, live@, saved.len()).len() > 0 {
                        let j = choose|j: int|
                            0 <= j < saved.len() && #[trigger] revived(saved[j], live@) == Some(
                                shown[k],
                            );
                        assert(saved[j].wf());
                        lemma_revived(saved[j], live@);
                        assert(known(projects, saved[j].project));
                    } else {
                        assert(projects[0].id == shown[k].project);
                    }
                }
            }
        }
    }
}

} // verus!
