//! Importing Projects and Tabs from another application.
//!
//! An import is checked first, then the tabs that need a Pane are planned, then
//! the host spawns the Panes, and only when all are there is the hierarchy
//! changed. A failed spawn therefore leaves the Workspace untouched.
use crate::hierarchy::{
    ids_distinct, known, lemma_insert_owned, lemma_project_at_found, project_at, tabs_of, unshown,
    Project, Win, Workspace, WorkspaceState,
};
use crate::metadata::{MetadataStore, Note};
use crate::text::{byte_len, push_text, same_text, trim, trimmed, utf8_len};
use crate::types::{PaneId, ProjectId};
use vstd::prelude::*;

verus! {

/// The most Projects one import may hold.
pub const MAX_PROJECTS: usize = 256;

/// The most Tabs one imported Project may hold.
pub const MAX_TABS_PER_PROJECT: usize = 256;

/// The longest Project or Tab name, in bytes.
pub const MAX_NAME_BYTES: usize = 256;

/// The longest Project path, in bytes.
pub const MAX_ROOT_BYTES: usize = 4096;

/// One Tab of an import.
#[derive(Debug)]
pub struct ImportedTab {
    pub name: Option<String>,
}

/// One Project of an import.
#[derive(Debug)]
pub struct ImportedProject {
    pub name: String,
    pub root: String,
    pub source_id: String,
    pub tabs: Vec<ImportedTab>,
}

/// The hierarchy to import.
#[derive(Debug)]
pub struct ImportedWorkspace {
    pub projects: Vec<ImportedProject>,
}

/// Why an import was refused. A Project is named by its position.
#[derive(Clone, Copy, Debug, PartialEq, Eq, Structural)]
pub enum ImportError {
    NoProjects,
    TooManyProjects,
    ProjectName,
    PathUnavailable(usize),
    TabCount(usize),
    TabName(usize),
    NotFresh,
    WrongRoot,
}

/// The words for a refusal.
pub open spec fn fault_text(fault: ImportError, projects: Seq<ImportedProject>) -> Seq<char> {
    match fault {
        ImportError::NoProjects => "the imported Workspace has no usable Projects"@,
        ImportError::TooManyProjects => "the imported Workspace exceeds 256 Projects"@,
        ImportError::ProjectName => "an imported Project has an invalid name"@,
        ImportError::PathUnavailable(i) => "Project path is unavailable: "@
            + projects[i as int].root@,
        ImportError::TabCount(i) => "Project '"@ + projects[i as int].name@
            + "' has an invalid Tab count"@,
        ImportError::TabName(i) => "Project '"@ + projects[i as int].name@
            + "' has an invalid Tab name"@,
        ImportError::NotFresh => "fresh import requires a newly-created Workspace"@,
        ImportError::WrongRoot => "fresh Workspace was not started at the first Project path"@,
    }
}

impl ImportError {
    /// The position of the Project that is at fault, where one is.
    pub open spec fn names(self) -> Option<usize> {
        match self {
            ImportError::PathUnavailable(i) => Some(i),
            ImportError::TabCount(i) => Some(i),
            ImportError::TabName(i) => Some(i),
            _ => None,
        }
    }

    /// Say why an import was refused.
    pub fn text(&self, workspace: &ImportedWorkspace) -> (text: String)
        requires
            self.names() matches Some(i) ==> i < workspace.projects@.len(),
        ensures
            text@ == fault_text(*self, workspace.projects@),
    {
        match self {
            ImportError::NoProjects => "the imported Workspace has no usable Projects".to_owned(),
            ImportError::TooManyProjects => "the imported Workspace exceeds 256 Projects".to_owned(),
            ImportError::ProjectName => "an imported Project has an invalid name".to_owned(),
            ImportError::PathUnavailable(i) => {
                let mut text = "Project path is unavailable: ".to_owned();
                push_text(&mut text, workspace.projects[*i].root.as_str());
                text
            },
            ImportError::TabCount(i) => {
                let mut text = "Project '".to_owned();
                push_text(&mut text, workspace.projects[*i].name.as_str());
                push_text(&mut text, "' has an invalid Tab count");
                text
            },
            ImportError::TabName(i) => {
                let mut text = "Project '".to_owned();
                push_text(&mut text, workspace.projects[*i].name.as_str());
                push_text(&mut text, "' has an invalid Tab name");
                text
            },
            ImportError::NotFresh => "fresh import requires a newly-created Workspace".to_owned(),
            ImportError::WrongRoot =>
                "fresh Workspace was not started at the first Project path".to_owned(),
        }
    }
}

/// Some Tab of the Project has a name that is too long.
pub open spec fn bad_tab_name(tabs: Seq<ImportedTab>) -> bool {
    exists|j: int|
        0 <= j < tabs.len() && (#[trigger] tabs[j]).name is Some
            && utf8_len(tabs[j].name->0@) > MAX_NAME_BYTES
}

/// What is wrong with the Project at position `i`, whose folder is there or
/// not.
pub open spec fn project_fault(project: ImportedProject, is_dir: bool, i: usize) -> Option<
    ImportError,
> {
    if trimmed(project.name@).len() == 0 || utf8_len(project.name@) > MAX_NAME_BYTES {
        Some(ImportError::ProjectName)
    } else if utf8_len(project.root@) > MAX_ROOT_BYTES || !is_dir {
        Some(ImportError::PathUnavailable(i))
    } else if project.tabs@.len() == 0 || project.tabs@.len() > MAX_TABS_PER_PROJECT {
        Some(ImportError::TabCount(i))
    } else if bad_tab_name(project.tabs@) {
        Some(ImportError::TabName(i))
    } else {
        None
    }
}

/// The first fault among the Projects from position `i` on.
pub open spec fn first_fault(projects: Seq<ImportedProject>, is_dir: Seq<bool>, i: int) -> Option<
    ImportError,
>
    decreases projects.len() - i,
{
    if i >= projects.len() || i < 0 {
        None
    } else {
        match project_fault(projects[i], is_dir[i], i as usize) {
            Some(fault) => Some(fault),
            None => first_fault(projects, is_dir, i + 1),
        }
    }
}

/// The reason to refuse an import, if there is one.
pub open spec fn import_fault(workspace: ImportedWorkspace, is_dir: Seq<bool>) -> Option<
    ImportError,
> {
    if workspace.projects@.len() == 0 {
        Some(ImportError::NoProjects)
    } else if workspace.projects@.len() > MAX_PROJECTS {
        Some(ImportError::TooManyProjects)
    } else {
        first_fault(workspace.projects@, is_dir, 0)
    }
}

fn check_project(project: &ImportedProject, is_dir: bool, i: usize) -> (fault: Option<ImportError>)
    ensures
        fault == project_fault(*project, is_dir, i),
{
    let bare = trim(project.name.as_str());
    if bare.as_str().is_empty() || byte_len(project.name.as_str()) > MAX_NAME_BYTES {
        return Some(ImportError::ProjectName);
    }
    if byte_len(project.root.as_str()) > MAX_ROOT_BYTES || !is_dir {
        return Some(ImportError::PathUnavailable(i));
    }
    if project.tabs.len() == 0 || project.tabs.len() > MAX_TABS_PER_PROJECT {
        return Some(ImportError::TabCount(i));
    }
    let mut j: usize = 0;
    while j < project.tabs.len()
        invariant
            j <= project.tabs@.len(),
            forall|k: int|
                0 <= k < j ==> !((#[trigger] project.tabs@[k]).name is Some
                    && utf8_len(project.tabs@[k].name->0@) > MAX_NAME_BYTES),
            project_fault(*project, is_dir, i) == if bad_tab_name(project.tabs@) {
                Some(ImportError::TabName(i))
            } else {
                None
            },
        decreases project.tabs@.len() - j,
    {
        if let Some(name) = &project.tabs[j].name {
            if byte_len(name.as_str()) > MAX_NAME_BYTES {
                assert(utf8_len(project.tabs@[j as int].name->0@) > MAX_NAME_BYTES);
                assert(bad_tab_name(project.tabs@));
                return Some(ImportError::TabName(i));
            }
        }
        j += 1;
    }
    None
}

proof fn lemma_importable(projects: Seq<ImportedProject>, is_dir: Seq<bool>, i: int)
    requires
        0 <= i,
        first_fault(projects, is_dir, i) is None,
    ensures
        forall|p: int|
            i <= p < projects.len() ==> 0 < (#[trigger] projects[p]).tabs@.len()
                <= MAX_TABS_PER_PROJECT,
    decreases projects.len() - i,
{
    if i < projects.len() {
        lemma_importable(projects, is_dir, i + 1);
    }
}

/// Check an import before anything is spawned. `is_dir` says of each Project
/// whether its folder is there.
pub fn validate_import(workspace: &ImportedWorkspace, is_dir: &Vec<bool>) -> (checked: Result<
    (),
    ImportError,
>)
    requires
        is_dir@.len() == workspace.projects@.len(),
    ensures
        checked == match import_fault(*workspace, is_dir@) {
            Some(fault) => Err::<(), ImportError>(fault),
            None => Ok::<(), ImportError>(()),
        },
        checked is Ok ==> importable(workspace.projects@),
{
    proof {
        if import_fault(*workspace, is_dir@) is None {
            lemma_importable(workspace.projects@, is_dir@, 0);
        }
    }
    if workspace.projects.len() == 0 {
        return Err(ImportError::NoProjects);
    }
    if workspace.projects.len() > MAX_PROJECTS {
        return Err(ImportError::TooManyProjects);
    }
    let mut i: usize = 0;
    while i < workspace.projects.len()
        invariant
            i <= workspace.projects@.len(),
            is_dir@.len() == workspace.projects@.len(),
            import_fault(*workspace, is_dir@) == first_fault(
                workspace.projects@,
                is_dir@,
                i as int,
            ),
        decreases workspace.projects@.len() - i,
    {
        if let Some(fault) = check_project(&workspace.projects[i], is_dir[i], i) {
            return Err(fault);
        }
        i += 1;
    }
    Ok(())
}

/// A Tab that needs a Pane before the import can be applied: the position of
/// its Project and of the Tab in it.
#[derive(Clone, Copy, Debug, PartialEq, Eq, Structural)]
pub struct StagedTab {
    pub project: usize,
    pub tab: usize,
}

/// How many Tabs of a Project are opened when those before `start` are already
/// there.
pub open spec fn missing(project: ImportedProject, start: usize) -> nat {
    if start < project.tabs@.len() {
        (project.tabs@.len() - start) as nat
    } else {
        0
    }
}

/// How many Tabs the first `p` Projects open.
pub open spec fn opened(projects: Seq<ImportedProject>, starts: Seq<usize>, p: nat) -> nat
    decreases p,
{
    if p == 0 {
        0
    } else {
        opened(projects, starts, (p - 1) as nat) + missing(projects[p - 1], starts[p - 1])
    }
}

/// The Tabs that need a Pane among those of the first `p` Projects, in order.
pub open spec fn staged(projects: Seq<ImportedProject>, starts: Seq<usize>, p: nat) -> Seq<
    StagedTab,
>
    decreases p,
{
    if p == 0 {
        Seq::empty()
    } else {
        staged(projects, starts, (p - 1) as nat) + Seq::new(
            missing(projects[p - 1], starts[p - 1]),
            |j: int| StagedTab { project: (p - 1) as usize, tab: (starts[p - 1] + j) as usize },
        )
    }
}

/// The Tab that shows the `k`-th staged Pane.
pub open spec fn staged_win(
    projects: Seq<ImportedProject>,
    owners: Seq<ProjectId>,
    slot: StagedTab,
    pane: PaneId,
) -> Win {
    Win::single(
        owners[slot.project as int],
        pane,
        projects[slot.project as int].tabs@[slot.tab as int].name,
    )
}

/// The first `n` Tabs that an import opens, in order.
pub open spec fn new_windows(
    projects: Seq<ImportedProject>,
    owners: Seq<ProjectId>,
    slots: Seq<StagedTab>,
    panes: Seq<PaneId>,
    n: nat,
) -> Seq<Win> {
    Seq::new(n, |k: int| staged_win(projects, owners, slots[k], panes[k]))
}

/// The Projects with `pane` remembered for `id` where nothing was yet.
pub open spec fn adopt(projects: Seq<Project>, id: ProjectId, pane: PaneId) -> Seq<Project> {
    match project_at(projects, id) {
        Some(i) if projects[i].active_pane is None => projects.update(
            i,
            Project { active_pane: Some(pane), ..projects[i] },
        ),
        _ => projects,
    }
}

/// The Projects after the first `n` of the new Tabs were opened in them.
pub open spec fn adopt_all(projects: Seq<Project>, tabs: Seq<Win>, n: nat) -> Seq<Project>
    decreases n,
{
    if n == 0 {
        projects
    } else {
        adopt(adopt_all(projects, tabs, (n - 1) as nat), tabs[n - 1].project, tabs[n - 1].active)
    }
}

/// Panes that can be shown in new Tabs: distinct, and shown nowhere yet.
pub open spec fn spare(windows: Seq<Win>, panes: Seq<PaneId>) -> bool {
    &&& panes.no_duplicates()
    &&& forall|k: int| 0 <= k < panes.len() ==> unshown(windows, #[trigger] panes[k])
}

/// The Tabs that need a Pane when those of each Project before `starts` are
/// already there.
pub fn plan_tabs(workspace: &ImportedWorkspace, starts: &Vec<usize>) -> (slots: Vec<StagedTab>)
    requires
        starts@.len() == workspace.projects@.len(),
    ensures
        slots@ == staged(workspace.projects@, starts@, workspace.projects@.len()),
{
    let ghost projects = workspace.projects@;
    let mut slots: Vec<StagedTab> = Vec::new();
    let mut p: usize = 0;
    while p < workspace.projects.len()
        invariant
            p <= workspace.projects@.len(),
            projects == workspace.projects@,
            starts@.len() == projects.len(),
            slots@ == staged(projects, starts@, p as nat),
        decreases workspace.projects@.len() - p,
    {
        let ghost before = slots@;
        let mut t: usize = starts[p];
        while t < workspace.projects[p].tabs.len()
            invariant
                p < projects.len(),
                projects == workspace.projects@,
                starts@.len() == projects.len(),
                starts@[p as int] <= t,
                t <= projects[p as int].tabs@.len() || t == starts@[p as int],
                slots@ == before + Seq::new(
                    (t - starts@[p as int]) as nat,
                    |j: int| StagedTab { project: p, tab: (starts@[p as int] + j) as usize },
                ),
            decreases projects[p as int].tabs@.len() - t,
        {
            slots.push(StagedTab { project: p, tab: t });
            t += 1;
            assert(slots@ =~= before + Seq::new(
                (t - starts@[p as int]) as nat,
                |j: int| StagedTab { project: p, tab: (starts@[p as int] + j) as usize },
            ));
        }
        p += 1;
        assert(slots@ =~= staged(projects, starts@, p as nat));
    }
    slots
}

/// Some staged Tab belongs to the Project at position `q`.
pub open spec fn listed(slots: Seq<StagedTab>, q: int) -> bool {
    exists|k: int| 0 <= k < slots.len() && (#[trigger] slots[k]).project == q
}

/// Every staged Tab names a Project and a Tab of the import.
proof fn lemma_staged(projects: Seq<ImportedProject>, starts: Seq<usize>, p: nat)
    requires
        p <= projects.len() <= usize::MAX,
        starts.len() == projects.len(),
    ensures
        staged(projects, starts, p).len() == opened(projects, starts, p),
        forall|k: int|
            0 <= k < staged(projects, starts, p).len() ==> {
                let slot = #[trigger] staged(projects, starts, p)[k];
                &&& slot.project < p
                &&& starts[slot.project as int] <= slot.tab
                    < projects[slot.project as int].tabs@.len()
            },
        forall|q: int|
            0 <= q < p && starts[q] < projects[q].tabs@.len() ==> #[trigger] listed(
                staged(projects, starts, p),
                q,
            ),
    decreases p,
{
    if p > 0 {
        lemma_staged(projects, starts, (p - 1) as nat);
        let head = staged(projects, starts, (p - 1) as nat);
        let all = staged(projects, starts, p);
        assert(projects[p - 1].tabs.len() <= usize::MAX);
        assert forall|k: int| 0 <= k < all.len() implies {
            let slot = #[trigger] all[k];
            &&& slot.project < p
            &&& starts[slot.project as int] <= slot.tab < projects[slot.project as int].tabs@.len()
        } by {
            if k < head.len() {
                assert(all[k] == head[k]);
            }
        }
        assert forall|q: int|
            0 <= q < p && starts[q] < projects[q].tabs@.len() implies #[trigger] listed(
            all,
            q,
        ) by {
            if q < p - 1 {
                assert(listed(head, q));
                let k = choose|k: int| 0 <= k < head.len() && (#[trigger] head[k]).project == q;
                assert(all[k] == head[k]);
            } else {
                assert(all[head.len() as int].project == q);
            }
        }
    }
}

proof fn lemma_adopt(projects: Seq<Project>, id: ProjectId, pane: PaneId)
    ensures
        adopt(projects, id, pane).len() == projects.len(),
        forall|i: int|
            0 <= i < projects.len() ==> (#[trigger] adopt(projects, id, pane)[i]).id
                == projects[i].id,
{
    lemma_project_at_found(projects, id);
}

/// Projects with the same ids, in order.
pub(crate) open spec fn same_ids(a: Seq<Project>, b: Seq<Project>) -> bool {
    &&& a.len() == b.len()
    &&& forall|i: int| 0 <= i < a.len() ==> (#[trigger] a[i]).id == (#[trigger] b[i]).id
}

proof fn lemma_same_ids_known(a: Seq<Project>, b: Seq<Project>)
    requires
        same_ids(a, b),
    ensures
        forall|p: ProjectId| #[trigger] known(a, p) == known(b, p),
        ids_distinct(a) ==> ids_distinct(b),
{
    assert forall|p: ProjectId| #[trigger] known(a, p) == known(b, p) by {
        if known(a, p) {
            let i = choose|i: int| 0 <= i < a.len() && (#[trigger] a[i]).id == p;
            assert(b[i].id == p);
        }
        if known(b, p) {
            let i = choose|i: int| 0 <= i < b.len() && (#[trigger] b[i]).id == p;
            assert(a[i].id == p);
        }
    }
    if ids_distinct(a) {
        assert forall|i: int, j: int| 0 <= i < j < b.len() implies (#[trigger] b[i]).id != (
        #[trigger] b[j]).id by {
            assert(a[i].id != a[j].id);
        }
    }
}

impl Workspace {
    fn open_tab(&mut self, project: ProjectId, pane: PaneId, name: Option<String>)
        ensures
            final(self)@ == (WorkspaceState {
                windows: old(self)@.windows.push(Win::single(project, pane, name)),
                projects: adopt(old(self)@.projects, project, pane),
                ..old(self)@
            }),
    {
        self.windows.push(Win::new_single(project, pane, name));
        if let Some(i) = self.project_position(project) {
            if self.projects[i].active_pane.is_none() {
                self.projects[i].active_pane = Some(pane);
            }
        }
    }

    /// Open the staged Tabs, each with its Pane, in order.
    fn open_staged(
        &mut self,
        workspace: &ImportedWorkspace,
        owners: &Vec<ProjectId>,
        slots: &Vec<StagedTab>,
        panes: &Vec<PaneId>,
    )
        requires
            old(self)@.owned_wf(),
            owners@.len() == workspace.projects@.len(),
            panes@.len() == slots@.len(),
            spare(old(self)@.windows, panes@),
            forall|k: int|
                0 <= k < slots@.len() ==> (#[trigger] slots@[k]).project < workspace.projects@.len()
                    && slots@[k].tab < workspace.projects@[slots@[k].project as int].tabs@.len(),
            forall|p: int|
                0 <= p < owners@.len() ==> known(old(self)@.projects, #[trigger] owners@[p]),
        ensures
            final(self)@ == (WorkspaceState {
                windows: old(self)@.windows + new_windows(
                    workspace.projects@,
                    owners@,
                    slots@,
                    panes@,
                    slots@.len(),
                ),
                projects: adopt_all(
                    old(self)@.projects,
                    new_windows(workspace.projects@, owners@, slots@, panes@, slots@.len()),
                    slots@.len(),
                ),
                ..old(self)@
            }),
            final(self)@.owned_wf(),
            same_ids(old(self)@.projects, final(self)@.projects),
    {
        let ghost s = self@;
        let ghost news = new_windows(workspace.projects@, owners@, slots@, panes@, slots@.len());
        let mut k: usize = 0;
        while k < slots.len()
            invariant
                k <= slots@.len(),
                s == old(self)@,
                news == new_windows(
                    workspace.projects@,
                    owners@,
                    slots@,
                    panes@,
                    slots@.len(),
                ),
                owners@.len() == workspace.projects@.len(),
                panes@.len() == slots@.len(),
                spare(s.windows, panes@),
                forall|k: int|
                    0 <= k < slots@.len() ==> (#[trigger] slots@[k]).project
                        < workspace.projects@.len() && slots@[k].tab
                        < workspace.projects@[slots@[k].project as int].tabs@.len(),
                forall|p: int| 0 <= p < owners@.len() ==> known(s.projects, #[trigger] owners@[p]),
                self@ == (WorkspaceState {
                    windows: s.windows + news.take(k as int),
                    projects: adopt_all(s.projects, news, k as nat),
                    ..s
                }),
                self@.owned_wf(),
                same_ids(s.projects, self@.projects),
                forall|j: int|
                    k <= j < panes@.len() ==> unshown(self@.windows, #[trigger] panes@[j]),
            decreases slots@.len() - k,
        {
            let slot: StagedTab = slots[k];
            let pane: PaneId = panes[k];
            let owner: ProjectId = owners[slot.project];
            let name = match &workspace.projects[slot.project].tabs[slot.tab].name {
                Some(text) => Some(text.clone()),
                None => None,
            };
            let ghost before = self@;
            assert(name == workspace.projects@[slot.project as int].tabs@[slot.tab as int].name);
            proof {
                let win = Win::single(owner, pane, name);
                assert(win == news[k as int]);
                lemma_insert_owned(before.windows, before.windows.len() as int, win, pane);
                assert(before.windows.insert(before.windows.len() as int, win)
                    =~= before.windows.push(win));
                lemma_adopt(before.projects, owner, pane);
                lemma_same_ids_known(s.projects, before.projects);
            }
            self.open_tab(owner, pane, name);
            proof {
                assert(news.take(k + 1) =~= news.take(k as int).push(news[k as int]));
                assert(self@.windows =~= s.windows + news.take(k + 1));
                assert(same_ids(s.projects, self@.projects));
                lemma_same_ids_known(s.projects, self@.projects);
                assert forall|i: int| 0 <= i < self@.windows.len() implies known(
                    self@.projects,
                    (#[trigger] self@.windows[i]).project,
                ) by {
                    if i < before.windows.len() {
                        assert(before.windows[i] == self@.windows[i]);
                        assert(known(before.projects, before.windows[i].project));
                        assert(known(s.projects, before.windows[i].project));
                    } else {
                        assert(known(s.projects, owners@[slot.project as int]));
                    }
                }
                assert forall|j: int| k + 1 <= j < panes@.len() implies unshown(
                    self@.windows,
                    #[trigger] panes@[j],
                ) by {
                    assert(panes@[j] != panes@[k as int]);
                    assert(unshown(before.windows, panes@[j]));
                }
            }
            k += 1;
        }
        assert(news.take(k as int) =~= news);
    }
}

/// The metadata key under which an imported Project keeps the id it had.
pub open spec fn source_key() -> Seq<char> {
    "desktop.source_id"@
}

/// An import that passed its checks.
pub open spec fn importable(projects: Seq<ImportedProject>) -> bool {
    &&& 0 < projects.len() <= MAX_PROJECTS
    &&& forall|p: int|
        0 <= p < projects.len() ==> 0 < (#[trigger] projects[p]).tabs@.len() <= MAX_TABS_PER_PROJECT
}

/// What an import did.
#[derive(Clone, Copy, Debug, PartialEq, Eq, Structural)]
pub struct Imported {
    pub projects: u32,
    pub tabs: u32,
    /// Projects that were there already.
    pub merged: u32,
}

/// The number of Tabs of the first `p` Projects.
pub open spec fn tab_total(projects: Seq<ImportedProject>, p: nat) -> nat
    decreases p,
{
    if p == 0 {
        0
    } else {
        tab_total(projects, (p - 1) as nat) + projects[p - 1].tabs@.len()
    }
}

/// Where the Tabs to open begin in a fresh import: the first Project's first
/// Tab is already there.
pub open spec fn fresh_starts(n: nat) -> Seq<usize> {
    Seq::new(
        n,
        |p: int|
            if p == 0 {
                1usize
            } else {
                0usize
            },
    )
}

/// The owner of each imported Project in a fresh import.
pub open spec fn fresh_owners(next: int, n: nat) -> Seq<ProjectId> {
    Seq::new(
        n,
        |p: int|
            if p == 0 {
                ProjectId(1)
            } else {
                ProjectId((next + p - 1) as u64)
            },
    )
}

/// The Projects of a fresh import before their Tabs open.
pub open spec fn fresh_projects(s: WorkspaceState, projects: Seq<ImportedProject>, p: nat) -> Seq<
    Project,
>
    decreases p,
{
    if p <= 1 {
        seq![Project { name: projects[0].name, ..s.projects[0] }]
    } else {
        fresh_projects(s, projects, (p - 1) as nat).push(
            Project {
                id: ProjectId((s.next_project_id + p - 2) as u64),
                name: projects[p - 1].name,
                root: projects[p - 1].root,
                active_pane: None,
            },
        )
    }
}

/// The notes after the Projects from position `from` up to `p` were tagged.
pub open spec fn tagged(
    notes: Map<(u64, Seq<char>), Note>,
    owners: Seq<ProjectId>,
    projects: Seq<ImportedProject>,
    p: nat,
) -> Map<(u64, Seq<char>), Note>
    decreases p,
{
    if p == 0 {
        notes
    } else {
        tagged(notes, owners, projects, (p - 1) as nat).insert(
            (owners[p - 1].0, source_key()),
            Note { value: projects[p - 1].source_id@, expires: None },
        )
    }
}

/// The Workspace was just created and shows one Pane.
pub open spec fn is_fresh(s: WorkspaceState) -> bool {
    s.projects.len() == 1 && s.windows.len() == 1 && s.windows[0].layout.panes().len() == 1
}

/// Why a fresh import cannot go into this Workspace, if it cannot.
pub open spec fn fresh_fault(s: WorkspaceState, projects: Seq<ImportedProject>) -> Option<
    ImportError,
> {
    if !is_fresh(s) {
        Some(ImportError::NotFresh)
    } else if s.projects[0].root@ != projects[0].root@ {
        Some(ImportError::WrongRoot)
    } else {
        None
    }
}

/// The state after a fresh import.
pub open spec fn fresh_import(
    s: WorkspaceState,
    projects: Seq<ImportedProject>,
    panes: Seq<PaneId>,
) -> WorkspaceState {
    let n = projects.len();
    let slots = staged(projects, fresh_starts(n), n);
    let owners = fresh_owners(s.next_project_id, n);
    let news = new_windows(projects, owners, slots, panes, slots.len());
    let opened = adopt_all(fresh_projects(s, projects, n), news, slots.len());
    WorkspaceState {
        windows: seq![Win { name: projects[0].tabs@[0].name, ..s.windows[0] }] + news,
        projects: opened.update(
            0,
            Project { active_pane: Some(s.windows[0].active), ..opened[0] },
        ),
        active_window: 0,
        active_project: ProjectId(1),
        next_project_id: s.next_project_id + n - 1,
        ..s
    }
}

proof fn lemma_fresh_projects(s: WorkspaceState, projects: Seq<ImportedProject>, p: nat)
    requires
        s.wf(),
        is_fresh(s),
        s.projects[0].id == ProjectId(1),
        1 <= p <= projects.len(),
        s.next_project_id + projects.len() <= u64::MAX,
    ensures
        fresh_projects(s, projects, p).len() == p,
        forall|i: int|
            0 <= i < p ==> (#[trigger] fresh_projects(s, projects, p)[i]).id == fresh_owners(
                s.next_project_id,
                projects.len(),
            )[i],
    decreases p,
{
    if p > 1 {
        lemma_fresh_projects(s, projects, (p - 1) as nat);
    }
}

/// Build `starts` for a fresh import of `n` Projects.
fn fresh_starts_vec(n: usize) -> (starts: Vec<usize>)
    ensures
        starts@ == fresh_starts(n as nat),
{
    let mut starts: Vec<usize> = Vec::new();
    let mut p: usize = 0;
    while p < n
        invariant
            p <= n,
            starts@ == fresh_starts(p as nat),
        decreases n - p,
    {
        starts.push(
            if p == 0 {
                1
            } else {
                0
            },
        );
        p += 1;
        assert(starts@ =~= fresh_starts(p as nat));
    }
    starts
}

proof fn lemma_tab_total(projects: Seq<ImportedProject>, p: nat)
    requires
        importable(projects),
        p <= projects.len(),
    ensures
        tab_total(projects, p) <= p * MAX_TABS_PER_PROJECT,
    decreases p,
{
    if p > 0 {
        lemma_tab_total(projects, (p - 1) as nat);
    }
}

fn count_tabs(workspace: &ImportedWorkspace) -> (total: u32)
    requires
        importable(workspace.projects@),
    ensures
        total == tab_total(workspace.projects@, workspace.projects@.len()),
{
    let mut total: u32 = 0;
    let mut p: usize = 0;
    while p < workspace.projects.len()
        invariant
            p <= workspace.projects@.len(),
            importable(workspace.projects@),
            total == tab_total(workspace.projects@, p as nat),
        decreases workspace.projects@.len() - p,
    {
        proof {
            lemma_tab_total(workspace.projects@, (p + 1) as nat);
        }
        total += workspace.projects[p].tabs.len() as u32;
        p += 1;
    }
    total
}

impl Workspace {
    fn fresh_check(&self, workspace: &ImportedWorkspace) -> (fault: Option<ImportError>)
        requires
            importable(workspace.projects@),
        ensures
            fault == fresh_fault(self@, workspace.projects@),
    {
        if self.projects.len() != 1 || self.windows.len() != 1
            || self.windows[0].layout.pane_ids().len() != 1 {
            return Some(ImportError::NotFresh);
        }
        if !same_text(self.projects[0].root.as_str(), workspace.projects[0].root.as_str()) {
            return Some(ImportError::WrongRoot);
        }
        None
    }

    /// The Tabs that a fresh import needs Panes for.
    pub fn plan_fresh_import(&self, workspace: &ImportedWorkspace) -> (plan: Result<
        Vec<StagedTab>,
        ImportError,
    >)
        requires
            importable(workspace.projects@),
        ensures
            match plan {
                Err(fault) => fresh_fault(self@, workspace.projects@) == Some(fault),
                Ok(slots) => fresh_fault(self@, workspace.projects@) is None && slots@ == staged(
                    workspace.projects@,
                    fresh_starts(workspace.projects@.len()),
                    workspace.projects@.len(),
                ),
            },
    {
        if let Some(fault) = self.fresh_check(workspace) {
            return Err(fault);
        }
        let starts = fresh_starts_vec(workspace.projects.len());
        Ok(plan_tabs(workspace, &starts))
    }

    /// Fill a just created Workspace with the imported hierarchy. `panes` are
    /// the Panes spawned for the planned Tabs, in order.
    pub fn import_fresh_workspace(
        &mut self,
        notes: &mut MetadataStore,
        workspace: &ImportedWorkspace,
        panes: &Vec<PaneId>,
    ) -> (done: Result<Imported, ImportError>)
        requires
            old(self)@.wf(),
            old(self)@.projects.len() == 1 ==> old(self)@.projects[0].id == ProjectId(1),
            old(notes).wf(),
            importable(workspace.projects@),
            old(self)@.next_project_id + workspace.projects@.len() <= u64::MAX,
            panes@.len() == staged(
                workspace.projects@,
                fresh_starts(workspace.projects@.len()),
                workspace.projects@.len(),
            ).len(),
            spare(old(self)@.windows, panes@),
        ensures
            final(notes).wf(),
            match done {
                Err(fault) => {
                    &&& fresh_fault(old(self)@, workspace.projects@) == Some(fault)
                    &&& final(self)@ == old(self)@
                    &&& final(notes)@ == old(notes)@
                },
                Ok(report) => {
                    &&& fresh_fault(old(self)@, workspace.projects@) is None
                    &&& final(self)@ == fresh_import(old(self)@, workspace.projects@, panes@)
                    &&& final(self)@.wf()
                    &&& final(notes)@ == tagged(
                        old(notes)@,
                        fresh_owners(old(self)@.next_project_id, workspace.projects@.len()),
                        workspace.projects@,
                        workspace.projects@.len(),
                    )
                    &&& report.projects == workspace.projects@.len()
                    &&& report.tabs == tab_total(workspace.projects@, workspace.projects@.len())
                    &&& report.merged == 0
                },
            },
    {
        let ghost s = self@;
        let ghost projects = workspace.projects@;
        let ghost all_owners = fresh_owners(s.next_project_id, projects.len());
        if let Some(fault) = self.fresh_check(workspace) {
            return Err(fault);
        }
        let starts = fresh_starts_vec(workspace.projects.len());
        let slots = plan_tabs(workspace, &starts);
        let active = self.windows[0].active;
        let n: usize = workspace.projects.len();
        self.projects[0].name = workspace.projects[0].name.clone();
        self.windows[0].name = match &workspace.projects[0].tabs[0].name {
            Some(text) => Some(text.clone()),
            None => None,
        };
        let key = "desktop.source_id";
        notes.insert(1, key.to_owned(), workspace.projects[0].source_id.clone(), None);
        let mut owners: Vec<ProjectId> = Vec::new();
        owners.push(ProjectId(1));
        let ghost w0 = Win { name: projects[0].tabs@[0].name, ..s.windows[0] };
        let mut p: usize = 1;
        proof {
            assert(self@.projects =~= fresh_projects(s, projects, 1));
            assert(self@.windows =~= seq![w0]);
            assert(owners@ =~= all_owners.take(1));
            reveal_with_fuel(tagged, 2);
        }
        while p < n
            invariant
                1 <= p <= n,
                n == projects.len(),
                projects == workspace.projects@,
                s == old(self)@,
                s.wf(),
                s.next_project_id + n <= u64::MAX,
                all_owners == fresh_owners(s.next_project_id, projects.len()),
                key@ == source_key(),
                notes.wf(),
                notes@ == tagged(old(notes)@, all_owners, projects, p as nat),
                owners@ == all_owners.take(p as int),
                self@ == (WorkspaceState {
                    windows: seq![w0],
                    projects: fresh_projects(s, projects, p as nat),
                    next_project_id: s.next_project_id + p - 1,
                    ..s
                }),
            decreases n - p,
        {
            let id = ProjectId(self.next_project_id);
            self.next_project_id += 1;
            notes.insert(id.0, key.to_owned(), workspace.projects[p].source_id.clone(), None);
            self.projects.push(
                Project {
                    id,
                    name: workspace.projects[p].name.clone(),
                    root: workspace.projects[p].root.clone(),
                    active_pane: None,
                },
            );
            owners.push(id);
            p += 1;
            proof {
                assert(all_owners[p - 1] == id);
                assert(owners@ =~= all_owners.take(p as int));
                assert(self@.projects =~= fresh_projects(s, projects, p as nat));
            }
        }
        assert(owners@ =~= all_owners);
        proof {
            lemma_staged(projects, starts@, projects.len());
            lemma_fresh_projects(s, projects, projects.len());
            lemma_fresh_base(s, self@, w0, projects, panes@);
        }
        self.open_staged(workspace, &owners, &slots, panes);
        self.active_window = 0;
        self.active_project = ProjectId(1);
        proof {
            assert(self@.projects[0].id == ProjectId(1));
            assert(self@.windows[0] == w0);
            assert(self@.windows[0].wf());
        }
        let ghost mid = self@;
        self.projects[0].active_pane = Some(active);
        proof {
            let out = fresh_import(s, projects, panes@);
            assert(self@.projects =~= out.projects);
            assert(self@.windows =~= out.windows);
            assert(same_ids(mid.projects, self@.projects));
            lemma_same_ids_known(mid.projects, self@.projects);
            assert forall|i: int| 0 <= i < self@.windows.len() implies known(
                self@.projects,
                (#[trigger] self@.windows[i]).project,
            ) by {
                assert(known(mid.projects, mid.windows[i].project));
            }
            assert(s.windows[0].project == ProjectId(1)) by {
                assert(known(s.projects, s.windows[0].project));
            }
        }
        Ok(Imported { projects: n as u32, tabs: count_tabs(workspace), merged: 0 })
    }
}

/// The state in which a fresh import opens its Tabs is sound.
proof fn lemma_fresh_base(
    s: WorkspaceState,
    t: WorkspaceState,
    w0: Win,
    projects: Seq<ImportedProject>,
    panes: Seq<PaneId>,
)
    requires
        s.wf(),
        is_fresh(s),
        s.projects[0].id == ProjectId(1),
        1 <= projects.len(),
        s.next_project_id + projects.len() <= u64::MAX,
        spare(s.windows, panes),
        w0 == (Win { name: w0.name, ..s.windows[0] }),
        t == (WorkspaceState {
            windows: seq![w0],
            projects: fresh_projects(s, projects, projects.len()),
            next_project_id: s.next_project_id + projects.len() - 1,
            ..s
        }),
    ensures
        t.owned_wf(),
        spare(t.windows, panes),
        forall|p: int|
            0 <= p < projects.len() ==> known(
                t.projects,
                #[trigger] fresh_owners(s.next_project_id, projects.len())[p],
            ),
{
    let owners = fresh_owners(s.next_project_id, projects.len());
    lemma_fresh_projects(s, projects, projects.len());
    assert(s.windows[0].wf());
    assert(forall|pane: PaneId| #[trigger] w0.shows(pane) == s.windows[0].shows(pane));
    assert(w0.wf());
    assert(t.active_window == 0);
    assert forall|p: int| 0 <= p < projects.len() implies known(
        t.projects,
        #[trigger] owners[p],
    ) by {
        assert(t.projects[p].id == owners[p]);
    }
    assert(s.projects[0].id.0 < s.next_project_id);
    assert forall|i: int, j: int| 0 <= i < j < t.projects.len() implies (#[trigger] t.projects[i]).id
        != (#[trigger] t.projects[j]).id by {
        assert(t.projects[i].id == owners[i] && t.projects[j].id == owners[j]);
    }
    assert forall|i: int| 0 <= i < t.projects.len() implies (#[trigger] t.projects[i]).id.0
        < t.next_project_id by {
        assert(t.projects[i].id == owners[i]);
    }
    assert(known(s.projects, s.windows[0].project));
    assert(s.windows[0].project == ProjectId(1));
    assert(known(t.projects, owners[0]));
    assert forall|k: int| 0 <= k < panes.len() implies unshown(t.windows, #[trigger] panes[k]) by {
        assert(unshown(s.windows, panes[k]));
        assert(!s.windows[0].shows(panes[k]));
    }
}

/// `i` is the first Project at this path.
pub open spec fn first_rooted(projects: Seq<Project>, root: Seq<char>, i: int) -> bool {
    &&& 0 <= i < projects.len()
    &&& projects[i].root@ == root
    &&& forall|j: int| 0 <= j < i ==> (#[trigger] projects[j]).root@ != root
}

/// The first Project at a path.
pub open spec fn rooted_at(projects: Seq<Project>, root: Seq<char>) -> Option<int> {
    if exists|i: int| first_rooted(projects, root, i) {
        Some(choose|i: int| first_rooted(projects, root, i))
    } else {
        None
    }
}

/// The Projects after the first `p` imported ones were looked up by their path
/// and added where they were missing.
pub open spec fn merged_projects(
    s: WorkspaceState,
    projects: Seq<ImportedProject>,
    p: nat,
) -> Seq<Project>
    decreases p,
{
    if p == 0 {
        s.projects
    } else {
        let known = merged_projects(s, projects, (p - 1) as nat);
        if rooted_at(known, projects[p - 1].root@) is Some {
            known
        } else {
            known.push(
                Project {
                    id: ProjectId(
                        (s.next_project_id + known.len() - s.projects.len()) as u64,
                    ),
                    name: projects[p - 1].name,
                    root: projects[p - 1].root,
                    active_pane: None,
                },
            )
        }
    }
}

/// The Project that the imported one at position `p` goes into.
pub open spec fn merge_owner(
    s: WorkspaceState,
    projects: Seq<ImportedProject>,
    p: int,
) -> ProjectId {
    let known = merged_projects(s, projects, p as nat);
    match rooted_at(known, projects[p].root@) {
        Some(i) => known[i].id,
        None => ProjectId((s.next_project_id + known.len() - s.projects.len()) as u64),
    }
}

/// The Project that each imported one goes into.
pub open spec fn merge_owners(s: WorkspaceState, projects: Seq<ImportedProject>, n: nat) -> Seq<
    ProjectId,
> {
    Seq::new(n, |p: int| merge_owner(s, projects, p))
}

/// How many Tabs an imported Project finds in place.
pub open spec fn tabs_in_place(s: WorkspaceState, root: Seq<char>) -> nat {
    match rooted_at(s.projects, root) {
        Some(i) => tabs_of(s.windows, s.projects[i].id).len(),
        None => 0,
    }
}

/// Where the Tabs to open begin in a merge: after those in place.
pub open spec fn merge_starts(s: WorkspaceState, projects: Seq<ImportedProject>, n: nat) -> Seq<
    usize,
> {
    Seq::new(n, |p: int| tabs_in_place(s, projects[p].root@) as usize)
}

/// How many of the first `p` imported Projects were there before.
pub open spec fn found_before(s: WorkspaceState, projects: Seq<ImportedProject>, p: nat) -> nat
    decreases p,
{
    if p == 0 {
        0
    } else {
        found_before(s, projects, (p - 1) as nat) + if rooted_at(
            s.projects,
            projects[p - 1].root@,
        ) is Some {
            1nat
        } else {
            0
        }
    }
}

/// The notes after the new Projects among the first `p` were tagged.
pub open spec fn merge_tagged(
    notes: Map<(u64, Seq<char>), Note>,
    s: WorkspaceState,
    projects: Seq<ImportedProject>,
    p: nat,
) -> Map<(u64, Seq<char>), Note>
    decreases p,
{
    if p == 0 {
        notes
    } else {
        let before = merge_tagged(notes, s, projects, (p - 1) as nat);
        if rooted_at(
            merged_projects(s, projects, (p - 1) as nat),
            projects[p - 1].root@,
        ) is Some {
            before
        } else {
            before.insert(
                (merge_owner(s, projects, p - 1).0, source_key()),
                Note { value: projects[p - 1].source_id@, expires: None },
            )
        }
    }
}

/// The state after a merge.
pub open spec fn merge_import(
    s: WorkspaceState,
    projects: Seq<ImportedProject>,
    panes: Seq<PaneId>,
) -> WorkspaceState {
    let n = projects.len();
    let slots = staged(projects, merge_starts(s, projects, n), n);
    let owners = merge_owners(s, projects, n);
    let news = new_windows(projects, owners, slots, panes, slots.len());
    let base = merged_projects(s, projects, n);
    WorkspaceState {
        windows: s.windows + news,
        projects: adopt_all(base, news, slots.len()),
        next_project_id: s.next_project_id + base.len() - s.projects.len(),
        ..s
    }
}

proof fn lemma_rooted(projects: Seq<Project>, root: Seq<char>, i: int)
    requires
        first_rooted(projects, root, i),
    ensures
        rooted_at(projects, root) == Some(i),
{
    let k = choose|k: int| first_rooted(projects, root, k);
    assert(first_rooted(projects, root, k));
    assert(k == i);
}

/// Merging only ever adds Projects, under new ids.
proof fn lemma_merged(s: WorkspaceState, projects: Seq<ImportedProject>, p: nat)
    requires
        s.ids_wf(),
        p <= projects.len(),
        s.next_project_id + projects.len() <= u64::MAX,
        s.next_project_id >= 0,
    ensures
        s.projects.len() <= merged_projects(s, projects, p).len() <= s.projects.len() + p,
        forall|i: int|
            0 <= i < s.projects.len() ==> #[trigger] merged_projects(s, projects, p)[i]
                == s.projects[i],
        forall|i: int|
            s.projects.len() <= i < merged_projects(s, projects, p).len() ==> (
            #[trigger] merged_projects(s, projects, p)[i]).id.0 == s.next_project_id + i
                - s.projects.len(),
        ids_distinct(merged_projects(s, projects, p)),
    decreases p,
{
    if p > 0 {
        lemma_merged(s, projects, (p - 1) as nat);
        let before = merged_projects(s, projects, (p - 1) as nat);
        let out = merged_projects(s, projects, p);
        assert forall|i: int, j: int| 0 <= i < j < out.len() implies (#[trigger] out[i]).id != (
        #[trigger] out[j]).id by {
            if j < before.len() {
                assert(before[i].id != before[j].id);
            } else if i < s.projects.len() {
                assert(before[i] == s.projects[i]);
                assert(s.projects[i].id.0 < s.next_project_id);
            } else {
                assert(before[i].id.0 == s.next_project_id + i - s.projects.len());
            }
        }
    }
}

/// The Project that an imported one goes into is there once all are looked up.
proof fn lemma_merge_owner(s: WorkspaceState, projects: Seq<ImportedProject>, p: int, n: nat)
    requires
        s.ids_wf(),
        0 <= p < n <= projects.len(),
        s.next_project_id + projects.len() <= u64::MAX,
        s.next_project_id >= 0,
    ensures
        known(merged_projects(s, projects, n), merge_owner(s, projects, p)),
    decreases n,
{
    let before = merged_projects(s, projects, p as nat);
    lemma_merged(s, projects, p as nat);
    if n == p + 1 {
        let out = merged_projects(s, projects, n);
        match rooted_at(before, projects[p].root@) {
            Some(i) => {
                assert(first_rooted(before, projects[p].root@, i));
                assert(out[i].id == merge_owner(s, projects, p));
            },
            None => {
                assert(out[before.len() as int].id == merge_owner(s, projects, p));
            },
        }
    } else {
        lemma_merge_owner(s, projects, p, (n - 1) as nat);
        let prev = merged_projects(s, projects, (n - 1) as nat);
        let out = merged_projects(s, projects, n);
        let id = merge_owner(s, projects, p);
        let k = choose|k: int| 0 <= k < prev.len() && (#[trigger] prev[k]).id == id;
        assert(out[k].id == id);
    }
}

impl Workspace {
    fn rooted_position(&self, root: &str) -> (found: Option<usize>)
        ensures
            crate::hierarchy::index_of(found) == rooted_at(self@.projects, root@),
    {
        let mut i: usize = 0;
        while i < self.projects.len()
            invariant
                i <= self.projects@.len(),
                forall|j: int| 0 <= j < i ==> (#[trigger] self.projects@[j]).root@ != root@,
            decreases self.projects@.len() - i,
        {
            if same_text(self.projects[i].root.as_str(), root) {
                proof {
                    lemma_rooted(self.projects@, root@, i as int);
                }
                return Some(i);
            }
            i += 1;
        }
        assert(!exists|k: int| first_rooted(self.projects@, root@, k));
        None
    }

    fn merge_starts_vec(&self, workspace: &ImportedWorkspace) -> (starts: Vec<usize>)
        ensures
            starts@ == merge_starts(self@, workspace.projects@, workspace.projects@.len()),
    {
        let ghost projects = workspace.projects@;
        let mut starts: Vec<usize> = Vec::new();
        let mut p: usize = 0;
        while p < workspace.projects.len()
            invariant
                p <= workspace.projects@.len(),
                projects == workspace.projects@,
                starts@ == merge_starts(self@, projects, p as nat),
            decreases workspace.projects@.len() - p,
        {
            let have: usize = match self.rooted_position(workspace.projects[p].root.as_str()) {
                Some(i) => {
                    assert(first_rooted(self@.projects, projects[p as int].root@, i as int));
                    self.project_window_indices(self.projects[i].id).len()
                },
                None => 0,
            };
            starts.push(have);
            p += 1;
            assert(starts@ =~= merge_starts(self@, projects, p as nat));
        }
        starts
    }

    /// The Tabs that a merge needs Panes for.
    pub fn plan_merge(&self, workspace: &ImportedWorkspace) -> (slots: Vec<StagedTab>)
        ensures
            slots@ == staged(
                workspace.projects@,
                merge_starts(self@, workspace.projects@, workspace.projects@.len()),
                workspace.projects@.len(),
            ),
    {
        let starts = self.merge_starts_vec(workspace);
        plan_tabs(workspace, &starts)
    }

    /// Add the imported Projects and Tabs that are missing. `panes` are the
    /// Panes spawned for the planned Tabs, in order.
    pub fn merge_imported_workspace(
        &mut self,
        notes: &mut MetadataStore,
        workspace: &ImportedWorkspace,
        panes: &Vec<PaneId>,
    ) -> (report: Imported)
        requires
            old(self)@.wf(),
            old(notes).wf(),
            importable(workspace.projects@),
            old(self)@.next_project_id + workspace.projects@.len() <= u64::MAX,
            panes@.len() == staged(
                workspace.projects@,
                merge_starts(old(self)@, workspace.projects@, workspace.projects@.len()),
                workspace.projects@.len(),
            ).len(),
            spare(old(self)@.windows, panes@),
        ensures
            final(self)@ == merge_import(old(self)@, workspace.projects@, panes@),
            final(self)@.wf(),
            final(notes).wf(),
            final(notes)@ == merge_tagged(
                old(notes)@,
                old(self)@,
                workspace.projects@,
                workspace.projects@.len(),
            ),
            report.projects == merged_projects(
                old(self)@,
                workspace.projects@,
                workspace.projects@.len(),
            ).len() - old(self)@.projects.len(),
            report.tabs == panes@.len(),
            report.merged == found_before(
                old(self)@,
                workspace.projects@,
                workspace.projects@.len(),
            ),
    {
        let ghost s = self@;
        let ghost projects = workspace.projects@;
        let ghost all_owners = merge_owners(s, projects, projects.len());
        let starts = self.merge_starts_vec(workspace);
        let slots = plan_tabs(workspace, &starts);
        let merged: u32 = self.count_found(workspace);
        let n: usize = workspace.projects.len();
        let key = "desktop.source_id";
        let mut owners: Vec<ProjectId> = Vec::new();
        let mut added: u32 = 0;
        let mut p: usize = 0;
        assert(owners@ =~= all_owners.take(0));
        while p < n
            invariant
                0 <= p <= n,
                n == projects.len(),
                n <= MAX_PROJECTS,
                projects == workspace.projects@,
                s == old(self)@,
                s.wf(),
                s.next_project_id + n <= u64::MAX,
                s.next_project_id >= 0,
                all_owners == merge_owners(s, projects, projects.len()),
                key@ == source_key(),
                notes.wf(),
                notes@ == merge_tagged(old(notes)@, s, projects, p as nat),
                owners@ == all_owners.take(p as int),
                added == self@.projects.len() - s.projects.len(),
                added <= p,
                self@ == (WorkspaceState {
                    projects: merged_projects(s, projects, p as nat),
                    next_project_id: s.next_project_id + added,
                    ..s
                }),
            decreases n - p,
        {
            proof {
                lemma_merged(s, projects, p as nat);
            }
            let owner = match self.rooted_position(workspace.projects[p].root.as_str()) {
                Some(i) => {
                    assert(first_rooted(self@.projects, projects[p as int].root@, i as int));
                    self.projects[i].id
                },
                None => {
                    let id = ProjectId(self.next_project_id);
                    self.next_project_id += 1;
                    notes.insert(
                        id.0,
                        key.to_owned(),
                        workspace.projects[p].source_id.clone(),
                        None,
                    );
                    self.projects.push(
                        Project {
                            id,
                            name: workspace.projects[p].name.clone(),
                            root: workspace.projects[p].root.clone(),
                            active_pane: None,
                        },
                    );
                    added += 1;
                    id
                },
            };
            assert(owner == merge_owner(s, projects, p as int));
            owners.push(owner);
            p += 1;
            proof {
                assert(owners@ =~= all_owners.take(p as int));
                assert(self@.projects =~= merged_projects(s, projects, p as nat));
            }
        }
        assert(owners@ =~= all_owners);
        let ghost base = self@;
        proof {
            lemma_staged(projects, starts@, projects.len());
            lemma_merged(s, projects, projects.len());
            assert forall|i: int| 0 <= i < owners@.len() implies known(
                base.projects,
                #[trigger] owners@[i],
            ) by {
                lemma_merge_owner(s, projects, i, projects.len());
            }
            assert forall|i: int| 0 <= i < base.windows.len() implies known(
                base.projects,
                (#[trigger] base.windows[i]).project,
            ) by {
                let id = s.windows[i].project;
                assert(known(s.projects, id));
                let k = choose|k: int|
                    0 <= k < s.projects.len() && (#[trigger] s.projects[k]).id == id;
                assert(base.projects[k].id == id);
            }
            assert forall|i: int| 0 <= i < base.projects.len() implies (
            #[trigger] base.projects[i]).id.0 < base.next_project_id by {
                if i < s.projects.len() {
                    assert(base.projects[i] == s.projects[i]);
                    assert(s.projects[i].id.0 < s.next_project_id);
                }
            }
            assert(base.owned_wf());
            lemma_slots_bound(projects, starts@, projects.len());
        }
        let tabs: u32 = slots.len() as u32;
        self.open_staged(workspace, &owners, &slots, panes);
        assert(self@.windows[self@.active_window] == s.windows[s.active_window]);
        Imported { projects: added, tabs, merged }
    }

    fn count_found(&self, workspace: &ImportedWorkspace) -> (count: u32)
        requires
            workspace.projects@.len() <= MAX_PROJECTS,
        ensures
            count == found_before(self@, workspace.projects@, workspace.projects@.len()),
    {
        let mut count: u32 = 0;
        let mut p: usize = 0;
        while p < workspace.projects.len()
            invariant
                p <= workspace.projects@.len() <= MAX_PROJECTS,
                count <= p,
                count == found_before(self@, workspace.projects@, p as nat),
            decreases workspace.projects@.len() - p,
        {
            if self.rooted_position(workspace.projects[p].root.as_str()).is_some() {
                count += 1;
            }
            p += 1;
        }
        count
    }
}

proof fn lemma_slots_bound(projects: Seq<ImportedProject>, starts: Seq<usize>, p: nat)
    requires
        importable(projects),
        starts.len() == projects.len(),
        p <= projects.len(),
    ensures
        staged(projects, starts, p).len() <= p * MAX_TABS_PER_PROJECT,
    decreases p,
{
    if p > 0 {
        lemma_slots_bound(projects, starts, (p - 1) as nat);
    }
}

/// What an import is to do with the Workspace that is there.
#[derive(Clone, Copy, Debug, PartialEq, Eq, Structural)]
pub enum ImportMode {
    /// Fill a Workspace that was just created.
    Fresh,
    /// Add what is missing.
    Merge,
}

/// The Tabs, by their Projects, that are there already.
pub open spec fn import_starts(
    s: WorkspaceState,
    projects: Seq<ImportedProject>,
    mode: ImportMode,
) -> Seq<usize> {
    match mode {
        ImportMode::Fresh => fresh_starts(projects.len()),
        ImportMode::Merge => merge_starts(s, projects, projects.len()),
    }
}

impl Workspace {
    /// Check an import and plan the Tabs that need Panes. `is_dir` says of each
    /// Project whether its folder is there.
    pub fn plan_import(
        &self,
        workspace: &ImportedWorkspace,
        is_dir: &Vec<bool>,
        mode: ImportMode,
    ) -> (plan: Result<Vec<StagedTab>, ImportError>)
        requires
            is_dir@.len() == workspace.projects@.len(),
        ensures
            match import_fault(*workspace, is_dir@) {
                Some(fault) => plan == Err::<Vec<StagedTab>, ImportError>(fault),
                None => match plan {
                    Err(fault) => mode == ImportMode::Fresh && fresh_fault(
                        self@,
                        workspace.projects@,
                    ) == Some(fault),
                    Ok(slots) => {
                        &&& mode == ImportMode::Fresh ==> fresh_fault(
                            self@,
                            workspace.projects@,
                        ) is None
                        &&& slots@ == staged(
                            workspace.projects@,
                            import_starts(self@, workspace.projects@, mode),
                            workspace.projects@.len(),
                        )
                    },
                },
            },
            plan is Ok ==> importable(workspace.projects@),
    {
        match validate_import(workspace, is_dir) {
            Ok(_) => {},
            Err(fault) => {
                return Err(fault);
            },
        }
        match mode {
            ImportMode::Fresh => self.plan_fresh_import(workspace),
            ImportMode::Merge => Ok(self.plan_merge(workspace)),
        }
    }
}

} // verus!
